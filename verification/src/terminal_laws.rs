//! What is asked of terminals: how large they start, that each is told its size once, that
//! they are started anew in their places, and that what they show is kept as they show it.

use vstd::prelude::*;
#[allow(unused_imports)]
use vstd::string::*;

#[allow(unused_imports)]
use crate::command_laws::{shown_window, window_replaced};
#[allow(unused_imports)]
use crate::error::Error;
#[allow(unused_imports)]
use crate::geometry::Rect;
#[allow(unused_imports)]
use crate::layout::PaneLayout;
#[allow(unused_imports)]
use crate::mux_laws::once_started;
#[allow(unused_imports)]
use crate::protocol::{
    PaneCell, RmuxCommand, SessionView, SplitAxis, WireMouse, WireMouseButton, WireMouseKind,
};
#[allow(unused_imports)]
use crate::render::{frame_shows, screen_panes, shown_cells, Frame, FrameCell, PaneDrawing};
#[allow(unused_imports)]
use crate::state::{panes_area, with_message, EffectState, PurposeState, RmuxState, SpawnState};
#[allow(unused_imports)]
use crate::text::decimal;
#[allow(unused_imports)]
use crate::view_laws::seen;
#[allow(unused_imports)]
use crate::window::{
    fitted_size, placement, Pane, WindowState, MIN_PANE_COLS, MIN_PANE_ROWS,
};

verus! {

/// The command that is run where one is asked for or not.
pub open spec fn command_run(state: RmuxState, command: Option<String>) -> Option<Seq<char>> {
    match command {
        Some(command) => Some(command@),
        None => state.session.default_command,
    }
}

/// The terminal of a new window starts with room left for a border around it and for the
/// status bar, as large as a framed pane that has the screen to itself, and never below the
/// least size. A terminal for a split starts as large as the pane that is split.
pub proof fn law_terminals_start_at_their_size(
    state: RmuxState,
    name: Option<String>,
    axis: SplitAxis,
    command: Option<String>,
)
    requires
        state.session.windows.len() < 64,
        state.session.active < state.session.windows.len(),
        state.current().panes.len() < 64,
        state.tty_size.rows > 0,
    ensures
        state.command_applied(RmuxCommand::NewWindow { name, command }).1 matches Ok(
            EffectState::Spawn(request),
        ) && {
            let tty = state.tty_size;
            &&& request.size == fitted_size(panes_area(tty), true)
            &&& tty.cols >= MIN_PANE_COLS + 2 ==> request.size.cols == tty.cols - 2
            &&& tty.rows >= MIN_PANE_ROWS + 3 ==> request.size.rows == tty.rows - 3
            &&& tty.cols < MIN_PANE_COLS + 2 ==> request.size.cols == MIN_PANE_COLS
            &&& tty.rows < MIN_PANE_ROWS + 3 ==> request.size.rows == MIN_PANE_ROWS
        },
        state.command_applied(RmuxCommand::SplitWindow { axis, command }).1 matches Ok(
            EffectState::Spawn(request),
        ) && request.size == shown_window(state).panes[shown_window(state).active as int].size,
{
}

/// A pane whose terminal is started anew keeps its id, its size and its place; the terminal
/// is told its size again. All else stays.
pub proof fn law_respawned_pane_stays_in_place(state: RmuxState, command: Option<String>)
    requires
        state.session.active < state.session.windows.len(),
        shown_window(state).active < shown_window(state).panes.len(),
    ensures
        ({
            let step = state.command_applied(RmuxCommand::RespawnPane { command });
            let window = shown_window(state);
            let pane = window.panes[window.active as int];
            &&& step.0 == state
            &&& step.1 matches Ok(EffectState::Spawn(request)) && request.pane_id == pane.id
                && request.size == pane.size && request.command == command_run(state, command)
            &&& once_started(step) == window_replaced(
                state,
                WindowState {
                    panes: window.panes.update(
                        window.active as int,
                        Pane { id: pane.id, size: pane.size, last_rect: None },
                    ),
                    ..window
                },
            )
        }),
{
}

/// A window that is started anew has one pane with the next id, which is active and not
/// synchronized; it keeps its id, its name and its place among the windows, which stay as
/// they are.
pub proof fn law_respawned_window_starts_over(state: RmuxState, command: Option<String>)
    requires
        state.session.active < state.session.windows.len(),
        state.next_pane_id < u64::MAX,
        state.tty_size.rows > 0,
    ensures
        ({
            let step = state.command_applied(RmuxCommand::RespawnWindow { command });
            let window = shown_window(state);
            let after = once_started(step);
            let now = shown_window(after);
            &&& step.1 matches Ok(EffectState::Spawn(request)) && request.pane_id
                == state.next_pane_id && request.command == command_run(state, command)
                && request.size == fitted_size(panes_area(state.tty_size), true)
            &&& after.session.windows == state.session.windows.update(
                state.session.active as int,
                now,
            )
            &&& after.session.active == state.session.active
            &&& after.session.last == state.session.last
            &&& after.next_pane_id == state.next_pane_id + 1
            &&& now.panes.len() == 1 && now.panes[0].id == state.next_pane_id
            &&& now.panes[0].last_rect is None
            &&& now.layout == PaneLayout::Leaf(0)
            &&& now.active == 0
            &&& !now.synchronized
            &&& now.id == window.id && now.name == window.name
        }),
{
    let step = state.command_applied(RmuxCommand::RespawnWindow { command });
    let after = once_started(step);
    assert(after.session.windows =~= state.session.windows.update(
        state.session.active as int,
        shown_window(after),
    ));
}

/// A window that is not given a name is named after its id. New windows, those made of
/// another window's pane too, have one pane that fills them and are not synchronized; a
/// pane keeps its weight.
pub proof fn law_new_windows_start_plain(
    state: RmuxState,
    name: Option<String>,
    command: Option<String>,
)
    requires
        state.session.windows.len() < 64,
        state.session.active < state.session.windows.len(),
        shown_window(state).panes.len() > 1,
    ensures
        ({
            let opened = once_started(
                state.command_applied(RmuxCommand::NewWindow { name, command }),
            ).session.windows.last();
            let broken = state.command_applied(
                RmuxCommand::BreakPane { name },
            ).0.session.windows.last();
            let window = shown_window(state);
            &&& name is None ==> opened.name == "win"@ + decimal(state.next_window_id as nat)
            &&& name is None ==> broken.name == "win"@ + decimal(state.next_window_id as nat)
            &&& opened.layout == PaneLayout::Leaf(0) && broken.layout == PaneLayout::Leaf(0)
            &&& opened.axis == SplitAxis::Horizontal && broken.axis == SplitAxis::Horizontal
            &&& opened.active == 0 && broken.active == 0
            &&& !opened.synchronized && !broken.synchronized
            &&& opened.weights.len() == 1 && opened.weights[0] > 0
            &&& broken.weights == seq![window.weights[window.active as int]]
        }),
{
}

/// A terminal that is started or started anew, or whose pane has come to lie elsewhere, is
/// told the size that it has in its rectangle; once told it is not told again.
pub proof fn law_terminal_is_told_its_size_once(pane: Pane, rect: Rect, framed: bool)
    ensures
        ({
            let told = placement(pane, rect, framed);
            let fitted = pane.fitted(rect, framed);
            &&& told.pane_id == pane.id
            &&& fitted.id == pane.id
            &&& fitted.size == fitted_size(rect, framed)
            &&& fitted.last_rect == Some(rect)
            &&& pane.last_rect != Some(rect) || pane.size != fitted.size ==> told.size == Some(
                fitted.size,
            )
            &&& pane == fitted ==> told.size is None
            &&& placement(fitted, rect, framed).size is None
        }),
{
}

/// A window of two panes in a split shows the weights of its two sides in their order, and
/// one of any other number of panes shows the same weight for each; the axis is that of the
/// outermost split.
pub proof fn law_window_shows_weights_of_its_layout(window: WindowState, k: int)
    requires
        0 <= k < window.panes.len(),
    ensures
        window.synced().weights.len() == window.panes.len(),
        window.panes.len() != 2 ==> window.synced().weights[k] == window.synced().weights[0]
            && window.synced().weights[k] > 0,
        window.layout matches PaneLayout::Split { axis, first_weight, second_weight, first, second }
            ==> window.synced().axis == axis && (window.panes.len() == 2 && *first
            == PaneLayout::Leaf(0) && *second == PaneLayout::Leaf(1) ==> window.synced().weights
            == seq![first_weight, second_weight]),
        window.synced().panes == window.panes,
        window.synced().layout == window.layout,
        window.synced().active == window.active,
{
}

/// The last five messages are kept, in their order.
pub proof fn law_last_messages_are_kept(messages: Seq<Seq<char>>, message: Seq<char>)
    requires
        messages.len() <= 5,
    ensures
        messages.len() < 5 ==> with_message(messages, message) == messages.push(message),
        messages.len() == 5 ==> with_message(messages, message) == messages.push(message).skip(1),
{
    assert(messages.len() == 5 ==> with_message(messages, message) =~= messages.push(
        message,
    ).skip(1));
}

proof fn lemma_shown_together(first: Seq<FrameCell>, rest: Seq<FrameCell>, rows: int, cols: int)
    ensures
        shown_cells(first + rest, rows, cols) == shown_cells(first, rows, cols) + shown_cells(
            rest,
            rows,
            cols,
        ),
    decreases rest.len(),
{
    if rest.len() == 0 {
        assert(first + rest =~= first);
        assert(shown_cells(first, rows, cols) + shown_cells(rest, rows, cols) =~= shown_cells(
            first,
            rows,
            cols,
        ));
    } else {
        lemma_shown_together(first, rest.drop_last(), rows, cols);
        assert((first + rest).drop_last() =~= first + rest.drop_last());
        assert((first + rest).last() == rest.last());
        assert(shown_cells(first + rest, rows, cols) =~= shown_cells(first, rows, cols)
            + shown_cells(rest, rows, cols));
    }
}

/// The cells of a terminal that are shown are those that lie on its screen and in the
/// columns asked for and are not hidden: each once, in their order, at their places, with
/// their colours, and with a blank for a control character.
pub proof fn law_cells_are_shown_as_they_are(
    frame: Frame,
    max_width: usize,
    first: Seq<FrameCell>,
    cell: FrameCell,
    rest: Seq<FrameCell>,
)
    requires
        frame.cells@ == first + seq![cell] + rest,
    ensures
        ({
            let cols = if max_width <= frame.cols {
                max_width as int
            } else {
                frame.cols as int
            };
            let rows = frame.rows as int;
            frame_shows(frame, max_width) == shown_cells(first, rows, cols) + (if seen(
                cell,
                frame,
                cols,
            ) {
                seq![
                    PaneCell {
                        col: cell.col,
                        row: cell.row,
                        ch: if crate::text::control_char(cell.ch) {
                            ' '
                        } else {
                            cell.ch
                        },
                        fg: cell.fg,
                        bg: cell.bg,
                        bold: cell.bold,
                    },
                ]
            } else {
                seq![]
            }) + shown_cells(rest, rows, cols)
        }),
{
    let cols = if max_width <= frame.cols {
        max_width as int
    } else {
        frame.cols as int
    };
    let rows = frame.rows as int;
    lemma_shown_together(first + seq![cell], rest, rows, cols);
    lemma_shown_together(first, seq![cell], rows, cols);
    let one = seq![cell];
    assert(one.drop_last() =~= seq![]);
    assert(one.last() == cell);
    assert(shown_cells(one.drop_last(), rows, cols) =~= seq![]);
}

/// A pane that has room is drawn in its own rectangle, and one that has none all over the
/// place of the panes; only the active one has the cursor drawn.
pub proof fn law_panes_are_drawn_in_their_rectangles(
    drawing: PaneDrawing,
    view: SessionView,
    area: Rect,
    index: int,
)
    requires
        0 <= index < view.panes@.len(),
        drawing.draws(view, area, index),
    ensures
        ({
            let pane = view.panes@[index];
            &&& pane.width > 0 && pane.height > 0 ==> drawing.rect == (Rect {
                x: pane.x,
                y: pane.y,
                width: pane.width,
                height: pane.height,
            })
            &&& pane.width == 0 || pane.height == 0 ==> drawing.rect == screen_panes(area)
            &&& index != view.active_pane ==> drawing.cursor is None
        }),
{
}

/// With shift held the left button selects text whatever the terminal under it wants; else,
/// and while no selection is being made, the terminal under the mouse is asked. What a
/// terminal wants to hear of a press drops the selection.
pub proof fn law_shift_selects_text(state: RmuxState, mouse: WireMouse, report: Seq<u8>)
    ensures
        ({
            let left = mouse.kind == WireMouseKind::Down(WireMouseButton::Left) || mouse.kind
                == WireMouseKind::Drag(WireMouseButton::Left) || mouse.kind == WireMouseKind::Up(
                WireMouseButton::Left,
            );
            let shift = crate::protocol::modifiers_from_bits(mouse.modifiers).shift;
            let under = state.pane_inside(mouse.col, mouse.row);
            let after = state.mouse_handled(mouse, Some(report)).0;
            &&& left && shift ==> state.reported_pane(mouse) is None
            &&& state.selection is None && !(left && shift) ==> state.reported_pane(mouse) == under
            &&& !left ==> state.reported_pane(mouse) == under
            &&& state.reported_pane(mouse) is Some ==> after.selection == if mouse.kind is Down {
                None
            } else {
                state.selection
            }
        }),
{
}

/// A terminal that could not be started leaves the session as it was when it was asked for,
/// and is told of.
pub proof fn law_failed_start_is_told(
    state: RmuxState,
    request: SpawnState,
)
    ensures
        ({
            let (after, told) = state.spawn_finished(request, false);
            &&& after == state
            &&& told matches Err(error) && match request.purpose {
                PurposeState::Split(_) => error == (Error::SplitPane { pane_id: request.pane_id }),
                PurposeState::NewWindow { .. } => error == Error::SpawnTerminal,
                PurposeState::RespawnPane => error == Error::RespawnTerminal,
                PurposeState::RespawnWindow => error == Error::SpawnTerminal,
            }
            &&& state.spawn_finished(request, true).1 == Ok::<(), Error>(())
        }),
{
}

/// A window takes sixty-four panes at most, and a session as many windows; a split beyond
/// that, or a window, is refused.
pub proof fn law_full_windows_are_not_split(
    state: RmuxState,
    axis: SplitAxis,
    name: Option<String>,
    command: Option<String>,
)
    requires
        state.session.active < state.session.windows.len(),
    ensures
        shown_window(state).panes.len() >= 64 <==> state.command_applied(
            RmuxCommand::SplitWindow { axis, command },
        ).1 == Err::<EffectState, Error>(Error::SplitPane { pane_id: state.next_pane_id }),
        state.session.windows.len() >= 64 <==> state.command_applied(
            RmuxCommand::NewWindow { name, command },
        ) == (state, Err::<EffectState, Error>(Error::WindowLimit)),
{
}

} // verus!
