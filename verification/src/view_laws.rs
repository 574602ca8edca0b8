//! What a view is for: a client sees the session as it is, each pane in its rectangle with
//! what its terminal shows, and the text that was selected.

use vstd::prelude::*;
#[allow(unused_imports)]
use vstd::string::*;

#[allow(unused_imports)]
use crate::geometry::Rect;
#[allow(unused_imports)]
use crate::protocol::{CursorView, PaneView, RmuxCommand, SelectionView, SessionView};
#[allow(unused_imports)]
use crate::render::{
    char_at, cursor_shown, fitting, frame_reads, frame_shows, pane_border, screen_panes,
    screen_status, selected_rows, selected_text, shown_cells, shown_width, status_shows, Frame,
    FrameCell, PaneBorder, StatusPart,
};
#[allow(unused_imports)]
use crate::state::RmuxState;
#[allow(unused_imports)]
use crate::text::{decimal, trimmed, trimmed_end, trimmed_start, white_space};
#[allow(unused_imports)]
use crate::view::{copied, pane_built, RawPane};
#[allow(unused_imports)]
use crate::width::char_room;

verus! {

/// A view shows the names, ids and settings of the session and of its windows in order,
/// which of them is active, and which pane of that window; and the last message.
pub proof fn law_view_shows_session(state: RmuxState)
    requires
        state.session.active < state.session.windows.len(),
    ensures
        ({
            let shown = state.shown();
            let session = state.session;
            let window = session.windows[session.active as int];
            &&& shown.session == session.name
            &&& shown.default_command == session.default_command
            &&& shown.key_bindings == session.bindings
            &&& shown.windows.len() == session.windows.len()
            &&& forall|i: int|
                0 <= i < session.windows.len() ==> #[trigger] shown.windows[i] == (
                    session.windows[i].id,
                    session.windows[i].name,
                    session.windows[i].synchronized,
                )
            &&& shown.active_window == session.active
            &&& shown.active_pane == window.active
            &&& shown.split_axis == window.axis
            &&& shown.pane_weights == window.weights
            &&& shown.prefix == state.prefix
            &&& state.messages.len() > 0 ==> shown.message == Some(state.messages.last())
            &&& state.messages.len() == 0 ==> shown.message is None
            &&& 1 <= session.prefix_key <= 26 ==> shown.prefix_key == seq![
                'C',
                '-',
                ('a' as int + session.prefix_key - 1) as char,
            ]
        }),
{
    reveal_strlit("C-");
    let key = state.session.prefix_key;
    if 1 <= key <= 26 {
        assert(state.shown().prefix_key =~= seq!['C', '-', ('a' as int + key - 1) as char]);
    }
}

/// What a command has changed is what the next view shows.
pub proof fn law_view_follows_commands(
    state: RmuxState,
    index: usize,
    name: String,
    enabled: bool,
)
    requires
        state.session.active < state.session.windows.len(),
    ensures
        ({
            let active = state.session.active as int;
            let renamed = state.command_applied(RmuxCommand::RenameWindow { name }).0.shown();
            let called = state.command_applied(RmuxCommand::RenameSession { name }).0.shown();
            let typed = state.command_applied(
                RmuxCommand::SetSynchronizePanes { enabled },
            ).0.shown();
            &&& index < state.session.windows.len() ==> state.command_applied(
                RmuxCommand::SelectWindow { index },
            ).0.shown().active_window == index
            &&& renamed.windows[active].1 == name@
            &&& called.session == name@
            &&& typed.windows[active].2 == enabled
            &&& index < state.session.windows[active].panes.len() ==> state.command_applied(
                RmuxCommand::SelectPane { index },
            ).0.shown().active_pane == index
        }),
{
}

/// Every pane is seen in its rectangle, with the cells and lines of its own terminal, which
/// are shown in as many columns as lie inside its border.
pub proof fn law_pane_is_seen_in_its_rectangle(state: RmuxState, index: int, frame: Frame)
    requires
        state.session.active < state.session.windows.len(),
        0 <= index < state.session.windows[state.session.active as int].panes.len(),
    ensures
        ({
            let window = state.session.windows[state.session.active as int];
            let pane = window.panes[index];
            let built = pane_built(state.raw_pane(index, frame));
            let rect = state.rects()[index];
            let inner = if window.panes.len() > 1 {
                if rect.width > 2 {
                    rect.width - 2
                } else {
                    0
                }
            } else {
                rect.width as int
            };
            &&& built.id == pane.id
            &&& built.rect == rect
            &&& built.cols == pane.size.cols && built.rows == pane.size.rows
            &&& built.cursor == frame.cursor
            &&& built.scroll_offset == frame.display_offset
            &&& built.history_size == frame.history_size
            &&& built.cells == frame_shows(frame, inner as usize)
            &&& built.lines == frame_reads(frame, inner as usize)
        }),
{
}

/// A selection is seen in the pane that it was made in, from where the button went down to
/// where it was moved, and in no other.
pub proof fn law_selection_is_seen_in_its_pane(state: RmuxState, index: int, frame: Frame)
    requires
        state.session.active < state.session.windows.len(),
        0 <= index < state.session.windows[state.session.active as int].panes.len(),
    ensures
        pane_built(state.raw_pane(index, frame)).selection == match state.selection {
            Some(selection) => if selection.moved && selection.pane_id
                == state.session.windows[state.session.active as int].panes[index].id {
                Some(SelectionView { start: selection.anchor, end: selection.head })
            } else {
                None
            },
            None => None,
        },
{
}

/// A terminal is as large as the inside of its pane, or as large as a terminal has to be at
/// least, once the panes are fitted to the screen.
pub proof fn law_terminal_fills_its_pane(state: RmuxState, index: int)
    requires
        state.session.active < state.session.windows.len(),
        0 <= index < state.session.windows[state.session.active as int].panes.len(),
    ensures
        ({
            let window = state.session.windows[state.session.active as int];
            let placed = state.panes_placed();
            let now = placed.session.windows[state.session.active as int];
            let rect = state.rects()[index];
            let inset: int = if window.panes.len() > 1 {
                2
            } else {
                0
            };
            let size = now.panes[index].size;
            &&& now.panes.len() == window.panes.len()
            &&& now.panes[index].id == window.panes[index].id
            &&& rect.width - inset >= crate::window::MIN_PANE_COLS ==> size.cols == rect.width
                - inset
            &&& rect.height - inset >= crate::window::MIN_PANE_ROWS ==> size.rows == rect.height
                - inset
            &&& rect.width - inset <= crate::window::MIN_PANE_COLS ==> size.cols
                == crate::window::MIN_PANE_COLS
            &&& rect.height - inset <= crate::window::MIN_PANE_ROWS ==> size.rows
                == crate::window::MIN_PANE_ROWS
            &&& now.layout == window.layout && now.active == window.active
        }),
{
}

proof fn lemma_fitting_narrow(text: Seq<char>, room: int)
    requires
        text.len() <= room,
        forall|i: int| 0 <= i < text.len() ==> char_room(#[trigger] text[i]) <= 1,
    ensures
        fitting(text, room) == text,
    decreases text.len(),
{
    if text.len() > 0 {
        let rest = text.skip(1);
        assert forall|i: int| 0 <= i < rest.len() implies char_room(#[trigger] rest[i]) <= 1 by {
            assert(rest[i] == text[i + 1]);
        }
        lemma_fitting_narrow(rest, room - char_room(text[0]));
        assert(seq![text[0]] + rest =~= text);
    }
}

/// Whether a cell of a frame is seen in `cols` columns.
pub open spec fn seen(cell: FrameCell, frame: Frame, cols: int) -> bool {
    cell.render_text && cell.row < frame.rows && cell.col < cols
}

proof fn lemma_char_seen(cells: Seq<FrameCell>, frame: Frame, cols: int, k: int)
    requires
        0 <= k < cells.len(),
        seen(cells[k], frame, cols),
        forall|j: int|
            k < j < cells.len() && seen(#[trigger] cells[j], frame, cols) ==> !(cells[j].row
                == cells[k].row && cells[j].col == cells[k].col),
    ensures
        char_at(
            shown_cells(cells, frame.rows as int, cols),
            cells[k].row as int,
            cells[k].col as int,
        ) == if crate::text::control_char(cells[k].ch) {
            ' '
        } else {
            cells[k].ch
        },
    decreases cells.len(),
{
    let rest = cells.drop_last();
    let shown = shown_cells(cells, frame.rows as int, cols);
    let before = shown_cells(rest, frame.rows as int, cols);
    if k < cells.len() - 1 {
        assert forall|j: int| k < j < rest.len() && seen(#[trigger] rest[j], frame, cols) implies !(
        rest[j].row == rest[k].row && rest[j].col == rest[k].col) by {
            assert(rest[j] == cells[j]);
        }
        lemma_char_seen(rest, frame, cols, k);
        assert(cells[cells.len() - 1] == cells.last());
        if seen(cells.last(), frame, cols) {
            assert(shown.drop_last() =~= before);
        }
    }
}

/// What is read at a place is a blank, or the character of a cell there.
proof fn lemma_char_from(cells: Seq<FrameCell>, frame: Frame, cols: int, row: int, col: int)
    ensures
        ({
            let c = char_at(shown_cells(cells, frame.rows as int, cols), row, col);
            c == ' ' || exists|j: int|
                0 <= j < cells.len() && (#[trigger] cells[j]).row == row && cells[j].ch == c
        }),
    decreases cells.len(),
{
    if cells.len() > 0 {
        let rest = cells.drop_last();
        lemma_char_from(rest, frame, cols, row, col);
        let c = char_at(shown_cells(rest, frame.rows as int, cols), row, col);
        if c != ' ' {
            let j = choose|j: int|
                0 <= j < rest.len() && (#[trigger] rest[j]).row == row && rest[j].ch == c;
            assert(cells[j] == rest[j]);
        }
        assert(cells[cells.len() - 1] == cells.last());
        let shown = shown_cells(cells, frame.rows as int, cols);
        if seen(cells.last(), frame, cols) {
            assert(shown.drop_last() =~= shown_cells(rest, frame.rows as int, cols));
        }
    }
}

/// The lines of a frame are as many as it has rows; each reads what the cells of its row
/// show, every one at its column, where all characters of the row take one column, as
/// blanks do.
pub proof fn law_lines_read_what_cells_show(frame: Frame, max_width: usize, k: int)
    requires
        0 <= k < frame.cells@.len(),
        seen(frame.cells@[k], frame, max_width as int),
        frame.cells@[k].col < frame.cols,
        forall|j: int|
            k < j < frame.cells@.len() && (#[trigger] frame.cells@[j]).render_text ==> !(
            frame.cells@[j].row == frame.cells@[k].row && frame.cells@[j].col
                == frame.cells@[k].col),
        forall|j: int|
            0 <= j < frame.cells@.len() && (#[trigger] frame.cells@[j]).row == frame.cells@[k].row
                ==> char_room(frame.cells@[j].ch) <= 1,
        char_room(' ') <= 1,
    ensures
        frame_reads(frame, max_width).len() == frame.rows,
        ({
            let cell = frame.cells@[k];
            let line = frame_reads(frame, max_width)[cell.row as int];
            &&& cell.col < line.len()
            &&& line[cell.col as int] == if crate::text::control_char(cell.ch) {
                ' '
            } else {
                cell.ch
            }
        }),
{
    let cols = shown_width(frame, max_width);
    let cell = frame.cells@[k];
    let cells = frame_shows(frame, max_width);
    let row = Seq::new(cols, |col: int| char_at(cells, cell.row as int, col));
    assert forall|i: int| 0 <= i < row.len() implies char_room(#[trigger] row[i]) <= 1 by {
        lemma_char_from(frame.cells@, frame, cols as int, cell.row as int, i);
    }
    lemma_fitting_narrow(row, cols as int);
    lemma_char_seen(frame.cells@, frame, cols as int, k);
}

/// A text is what is left of it without the white space at its end, and that white space.
pub proof fn law_trimmed_text_ends_in_no_blank(text: Seq<char>)
    ensures
        trimmed_end(text).is_prefix_of(text),
        trimmed_end(text).len() > 0 ==> !white_space(trimmed_end(text).last()),
        forall|i: int| trimmed_end(text).len() <= i < text.len() ==> white_space(#[trigger] text[i]),
    decreases text.len(),
{
    if text.len() > 0 && white_space(text.last()) {
        let front = text.drop_last();
        law_trimmed_text_ends_in_no_blank(front);
        assert(trimmed_end(text) =~= text.take(trimmed_end(text).len() as int));
        assert forall|i: int| trimmed_end(text).len() <= i < text.len() implies white_space(
            #[trigger] text[i],
        ) by {
            if i < front.len() {
                assert(front[i] == text[i]);
            }
        }
    } else {
        assert(text =~= text.take(text.len() as int));
    }
}

/// A selection reads the same whichever end it was begun at.
pub proof fn law_selection_reads_same_both_ways(
    lines: Seq<Seq<char>>,
    a: CursorView,
    b: CursorView,
)
    ensures
        selected_text(lines, SelectionView { start: a, end: b }) == selected_text(
            lines,
            SelectionView { start: b, end: a },
        ),
{
}

/// The cells from one column to another of a line, both of them with it, or to its end, and
/// without the white space at the end.
pub open spec fn cells_of(line: Seq<char>, from: int, to: int) -> Seq<char> {
    if from >= line.len() || from > to {
        seq![]
    } else if to + 1 < line.len() {
        trimmed_end(line.subrange(from, to + 1))
    } else {
        trimmed_end(line.skip(from))
    }
}

/// In one row a selection is the text from the one cell to the other. With a row more it is
/// the text up to the end of the row before, then a new line, and the row more up to the
/// cell where the selection ends.
pub proof fn law_selection_reads_row_by_row(
    lines: Seq<Seq<char>>,
    start: CursorView,
    end: CursorView,
    line_end: usize,
)
    requires
        start.row < lines.len(),
    ensures
        start.row == end.row && start.col <= end.col ==> selected_text(
            lines,
            SelectionView { start, end },
        ) == cells_of(lines[start.row as int], start.col as int, end.col as int),
        start.row < end.row < lines.len() && line_end >= lines[end.row - 1].len() && line_end
            >= start.col ==> selected_text(lines, SelectionView { start, end }) == selected_text(
            lines,
            SelectionView {
                start,
                end: CursorView { row: (end.row - 1) as usize, col: line_end },
            },
        ) + seq!['\n'] + cells_of(lines[end.row as int], 0, end.col as int),
{
    let line = lines[start.row as int];
    if start.row == end.row && start.col <= end.col {
        let part = crate::render::line_part(line, start.col as int, end.col as int);
        lemma_line_part(line, start.col as int, end.col as int);
        assert(selected_rows(lines, start, end, start.row + 1) == part);
    }
    if start.row < end.row < lines.len() && line_end >= lines[end.row - 1].len() && line_end
        >= start.col {
        let short = CursorView { row: (end.row - 1) as usize, col: line_end };
        lemma_rows_before(lines, start, end, short, end.row as int);
        lemma_line_part(lines[end.row as int], 0, end.col as int);
        assert(selected_rows(lines, start, end, end.row + 1) == selected_rows(
            lines,
            start,
            end,
            end.row as int,
        ) + seq!['\n'] + crate::render::line_part(lines[end.row as int], 0, end.col as int));
    }
}

proof fn lemma_line_part(line: Seq<char>, from: int, to: int)
    requires
        0 <= from <= to,
    ensures
        crate::render::line_part(line, from, to) == cells_of(line, from, to),
{
    if from < line.len() && to + 1 >= line.len() {
        assert(line.subrange(from, line.len() as int) =~= line.skip(from));
    }
}

/// Up to a row that lies before both ends, a selection does not depend on where it ends
/// behind it.
proof fn lemma_rows_before(
    lines: Seq<Seq<char>>,
    first: CursorView,
    last: CursorView,
    short: CursorView,
    until: int,
)
    requires
        first.row <= short.row,
        short.row + 1 == last.row,
        last.row < lines.len(),
        until <= last.row,
        short.col >= lines[short.row as int].len(),
    ensures
        selected_rows(lines, first, last, until) == selected_rows(lines, first, short, until),
    decreases until - first.row,
{
    if until > first.row {
        lemma_rows_before(lines, first, last, short, until - 1);
        let row = until - 1;
        let line = lines[row];
        let from = if row == first.row {
            first.col as int
        } else {
            0
        };
        assert(crate::render::line_part(line, from, line.len() as int)
            == crate::render::line_part(
            line,
            from,
            if row == short.row {
                short.col as int
            } else {
                line.len() as int
            },
        ));
    }
}

/// The status bar shows the session first, then each window by its number, name and id, the
/// active one as such, then whether the prefix key is held and the last message.
pub proof fn law_status_shows_windows_in_order(view: SessionView)
    ensures
        ({
            let spans = status_shows(view);
            let count = view.windows@.len() as int;
            &&& spans.len() == count + 2 + (if view.prefix {
                1int
            } else {
                0
            }) + (if view.message is Some {
                1int
            } else {
                0
            })
            &&& spans[0] == (StatusPart::Session, seq![' '] + view.session@ + seq![' '])
            &&& forall|i: int|
                0 <= i < count ==> #[trigger] spans[i + 1] == (
                    if i == view.active_window {
                        StatusPart::ActiveWindow
                    } else {
                        StatusPart::Window
                    },
                    seq![' '] + decimal((i + 1) as nat) + seq![':'] + view.windows@[i].name@
                        + seq!['#'] + decimal(view.windows@[i].id as nat) + seq![' '],
                )
            &&& view.prefix ==> spans[count + 2] == (StatusPart::Prefix, "PREFIX "@)
            &&& view.message matches Some(message) ==> spans.last() == (
                StatusPart::Message,
                message@,
            )
        }),
{
    reveal_strlit(" ");
    reveal_strlit(":");
    reveal_strlit("#");
    assert(" "@ =~= seq![' ']);
    assert(":"@ =~= seq![':']);
    assert("#"@ =~= seq!['#']);
    let spans = status_shows(view);
    assert forall|i: int| 0 <= i < view.windows@.len() implies #[trigger] spans[i + 1] == (
        if i == view.active_window {
            StatusPart::ActiveWindow
        } else {
            StatusPart::Window
        },
        seq![' '] + decimal((i + 1) as nat) + seq![':'] + view.windows@[i].name@ + seq!['#']
            + decimal(view.windows@[i].id as nat) + seq![' '],
    ) by {
        assert(spans[i + 1] == crate::render::window_spans(view)[i]);
        assert((i as nat) + 1 == (i + 1) as nat);
    }
}

/// The panes have the screen above its last row, and the status bar has that row.
pub proof fn law_status_takes_last_row(area: Rect)
    requires
        area.fits(),
        area.height > 0,
    ensures
        ({
            let panes = screen_panes(area);
            let status = screen_status(area);
            &&& panes.x == area.x && panes.width == area.width && panes.y == area.y
            &&& status.x == area.x && status.width == area.width && status.height == 1
            &&& panes.y + panes.height == status.y
            &&& status.y + status.height == area.y + area.height
        }),
{
}

/// A pane has a border where there is another, and the active one stands out.
pub proof fn law_active_pane_stands_out(view: SessionView, index: int)
    ensures
        pane_border(view, index) == PaneBorder::Unframed <==> view.panes@.len() <= 1,
        pane_border(view, index) == PaneBorder::Active <==> view.panes@.len() > 1 && index
            == view.active_pane,
        pane_border(view, index) == PaneBorder::Inactive <==> view.panes@.len() > 1 && index
            != view.active_pane,
{
}

/// A cursor is drawn at its cell, counted from the first cell inside the border, where that
/// lies inside the pane; a terminal without a cursor has none drawn.
pub proof fn law_cursor_is_drawn_at_its_cell(pane: PaneView, rect: Rect, framed: bool)
    requires
        rect.fits(),
    ensures
        ({
            let border: int = if framed {
                1
            } else {
                0
            };
            match pane.cursor {
                None => cursor_shown(pane, rect, framed) is None,
                Some(cursor) => {
                    let x = rect.x + border + cursor.col;
                    let y = rect.y + border + cursor.row;
                    let inside = x < rect.x + rect.width - border && y < rect.y + rect.height
                        - border;
                    cursor.col < pane.cols && cursor.row < pane.rows && rect.width >= border
                        && rect.height >= border ==> cursor_shown(pane, rect, framed) == if inside {
                        Some((x as u16, y as u16))
                    } else {
                        None
                    }
                },
            }
        }),
{
}

/// What is copied is what the selection covers of the lines that are shown of its pane, the
/// first one that has a selection; nothing is copied where none has.
pub proof fn law_shown_selection_is_copied(panes: Seq<RawPane>, i: int)
    requires
        0 <= i <= panes.len(),
        forall|j: int| 0 <= j < i ==> (#[trigger] panes[j]).selection is None,
    ensures
        i == panes.len() ==> copied(panes) is None,
        i < panes.len() && panes[i].selection is Some ==> copied(panes) == Some(
            selected_text(pane_built(panes[i]).lines, panes[i].selection->0),
        ),
    decreases panes.len(),
{
    if i > 0 {
        let rest = panes.skip(1);
        assert forall|j: int| 0 <= j < i - 1 implies (#[trigger] rest[j]).selection is None by {
            assert(rest[j] == panes[j + 1]);
        }
        law_shown_selection_is_copied(rest, i - 1);
        assert(panes[0].selection is None);
        if i < panes.len() {
            assert(rest[i - 1] == panes[i]);
        }
    }
}

/// A prefix key that is not control and a letter is shown as `C-[` where that sends it, and
/// else by its number: `0x` and two digits, the higher one first.
pub proof fn law_other_prefix_keys_are_shown(state: RmuxState)
    requires
        state.session.prefix_key == 0 || state.session.prefix_key > 26,
    ensures
        ({
            let key = state.session.prefix_key as int;
            let shown = state.shown().prefix_key;
            let digits = "0123456789abcdef"@;
            &&& key == 0x1b ==> shown == seq!['C', '-', '[']
            &&& key != 0x1b ==> shown == seq!['0', 'x', digits[key / 16], digits[key % 16]]
        }),
{
    reveal_strlit("C-[");
    reveal_strlit("0x");
    reveal_strlit("0123456789abcdef");
    let key = state.session.prefix_key as int;
    let digits = "0123456789abcdef"@;
    if key == 0x1b {
        assert(state.shown().prefix_key =~= seq!['C', '-', '[']);
    } else {
        assert(forall|n: int| 0 <= n < 10 ==> #[trigger] digits[n] == (48 + n) as char);
        assert(forall|n: int| 10 <= n < 16 ==> #[trigger] digits[n] == (87 + n) as char);
        assert(0 <= key / 16 < 16 && 0 <= key % 16 < 16);
        assert(state.shown().prefix_key =~= seq!['0', 'x', digits[key / 16], digits[key % 16]]);
    }
}

proof fn lemma_blanks_before(blanks: Seq<char>, text: Seq<char>)
    requires
        forall|i: int| 0 <= i < blanks.len() ==> white_space(#[trigger] blanks[i]),
        text.len() > 0 && !white_space(text[0]),
    ensures
        trimmed_start(blanks + text) == text,
    decreases blanks.len(),
{
    let whole = blanks + text;
    if blanks.len() == 0 {
        assert(whole =~= text);
    } else {
        assert(whole[0] == blanks[0]);
        assert(whole.skip(1) =~= blanks.skip(1) + text);
        lemma_blanks_before(blanks.skip(1), text);
    }
}

proof fn lemma_blanks_behind(text: Seq<char>, blanks: Seq<char>)
    requires
        forall|i: int| 0 <= i < blanks.len() ==> white_space(#[trigger] blanks[i]),
        text.len() > 0 && !white_space(text.last()),
    ensures
        trimmed_end(text + blanks) == text,
    decreases blanks.len(),
{
    let whole = text + blanks;
    if blanks.len() == 0 {
        assert(whole =~= text);
    } else {
        assert(whole.last() == blanks.last());
        assert(whole.drop_last() =~= text + blanks.drop_last());
        lemma_blanks_behind(text, blanks.drop_last());
    }
}

/// White space around a text is taken off, before it and behind it, and what stands between
/// is kept.
pub proof fn law_blanks_around_text_are_taken_off(
    before: Seq<char>,
    text: Seq<char>,
    after: Seq<char>,
)
    requires
        forall|i: int| 0 <= i < before.len() ==> white_space(#[trigger] before[i]),
        forall|i: int| 0 <= i < after.len() ==> white_space(#[trigger] after[i]),
        text.len() > 0 && !white_space(text[0]) && !white_space(text.last()),
    ensures
        trimmed(before + text + after) == text,
{
    let rest = text + after;
    assert(before + text + after =~= before + rest);
    assert(rest[0] == text[0]);
    lemma_blanks_before(before, rest);
    lemma_blanks_behind(text, after);
}

} // verus!
