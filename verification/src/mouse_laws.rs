//! What the mouse is for: a place of the screen belongs to one pane, and what that
//! pane hears of it is the cell of its own screen that is drawn there.

use vstd::prelude::*;

#[allow(unused_imports)]
use crate::geometry::Rect;
#[allow(unused_imports)]
use crate::protocol::{CursorView, PaneView, WireMouse, WireMouseButton, WireMouseKind};
#[allow(unused_imports)]
use crate::state::{inside, inside_at, panes_area, EffectState, RmuxState, Selection};
#[allow(unused_imports)]
use crate::window::WindowState;

verus! {

/// The cells that the border of a pane takes on each side: none where the pane is
/// the only one of its window.
pub open spec fn border(state: RmuxState) -> int {
    if state.session.windows[state.session.active as int].panes.len() > 1 {
        1
    } else {
        0
    }
}

/// Whether a place of the screen lies in a rectangle and not on its border.
pub open spec fn within_border(rect: Rect, border: int, col: int, row: int) -> bool {
    &&& rect.x + border <= col < rect.x + rect.width - border
    &&& rect.y + border <= row < rect.y + rect.height - border
}

proof fn lemma_inside_at(rects: Seq<Rect>, framed: bool, from: int, col: u16, row: u16)
    requires
        0 <= from,
        rects.len() <= usize::MAX,
    ensures
        match inside_at(rects, framed, from, col, row) {
            Some(i) => {
                &&& from <= i < rects.len()
                &&& crate::geometry::hits(rects[i as int], col, row)
                &&& crate::geometry::hits(inside(rects[i as int], framed), col, row)
            },
            None => forall|i: int|
                from <= i < rects.len() ==> !(crate::geometry::hits(
                    #[trigger] rects[i],
                    col,
                    row,
                ) && crate::geometry::hits(inside(rects[i], framed), col, row)),
        },
    decreases rects.len() - from,
{
    if from < rects.len() {
        lemma_inside_at(rects, framed, from + 1, col, row);
    }
}

/// A place is found inside a rectangle exactly where it lies off its border.
proof fn lemma_off_border(rect: Rect, framed: bool, col: u16, row: u16)
    requires
        col < u16::MAX,
        row < u16::MAX,
    ensures
        crate::geometry::hits(rect, col, row) && crate::geometry::hits(
            inside(rect, framed),
            col,
            row,
        ) <==> within_border(
            rect,
            if framed {
                1
            } else {
                0
            },
            col as int,
            row as int,
        ),
{
}

/// The pane under a place of the screen is the one whose rectangle it lies in, off
/// the border, and above the status bar.
pub proof fn law_place_belongs_to_pane_around_it(state: RmuxState, col: u16, row: u16)
    requires
        state.sound(),
        state.current().tiled(),
    ensures
        forall|pane: usize|
            state.pane_inside(col, row) == Some(pane) <==> pane < state.current().panes.len()
                && row + 1 < state.tty_size.rows && within_border(
                #[trigger] state.rects()[pane as int],
                border(state),
                col as int,
                row as int,
            ),
{
    let window = state.current();
    let area = panes_area(state.tty_size);
    let rects = state.rects();
    crate::soundness::lemma_session_sound(state);
    crate::window_laws::law_window_covers_area(window, area);
    lemma_inside_at(rects, state.framed(), 0, col, row);
    assert forall|pane: usize|
        state.pane_inside(col, row) == Some(pane) <==> pane < window.panes.len() && row + 1
            < state.tty_size.rows && within_border(
            #[trigger] rects[pane as int],
            border(state),
            col as int,
            row as int,
        ) by {
        if pane < window.panes.len() && col < u16::MAX && row < u16::MAX {
            lemma_off_border(rects[pane as int], state.framed(), col, row);
        }
        if pane < window.panes.len() && row + 1 < state.tty_size.rows && within_border(
            rects[pane as int],
            border(state),
            col as int,
            row as int,
        ) {
            assert(rects[pane as int].covers(col as int, row as int));
            let found = state.pane_inside(col, row);
            assert(found is Some);
            let other = found->0;
            lemma_off_border(rects[other as int], state.framed(), col, row);
            assert(rects[other as int].covers(col as int, row as int));
            assert(other == pane);
        }
    }
}

/// What a terminal is told of the mouse is a cell of its own screen: the cell is as
/// far from the first cell inside the border as the mouse is on the screen.
pub proof fn law_reported_cell_lies_under_mouse(state: RmuxState, mouse: WireMouse)
    requires
        state.reported_pane(mouse) is Some,
        state.session.windows[state.session.active as int].panes.len() <= usize::MAX,
    ensures
        ({
            let pane = state.reported_pane(mouse)->0;
            let rect = state.rects()[pane as int];
            let cell = state.cell_in(pane, mouse.col, mouse.row);
            &&& pane < state.rects().len()
            &&& rect.x + border(state) + cell.col == mouse.col
            &&& rect.y + border(state) + cell.row == mouse.row
            &&& cell.col < rect.width - 2 * border(state)
            &&& cell.row < rect.height - 2 * border(state)
        }),
{
    let out = Seq::new(
        state.current().panes.len(),
        |i: int| panes_area(state.tty_size),
    );
    crate::layout::lemma_placed_len(state.current().layout, panes_area(state.tty_size), out);
    lemma_inside_at(state.rects(), state.framed(), 0, mouse.col, mouse.row);
}

/// A cursor in the cell under a place of the screen is drawn at that place: what is
/// drawn under the mouse is what the terminal is told of.
pub proof fn law_cell_under_place_is_drawn_there(
    state: RmuxState,
    col: u16,
    row: u16,
    view: PaneView,
)
    requires
        state.pane_inside(col, row) is Some,
        state.session.windows[state.session.active as int].panes.len() <= usize::MAX,
        ({
            let pane = state.pane_inside(col, row)->0;
            let cell = state.cell_in(pane, col, row);
            view.cursor == Some(cell) && cell.col < view.cols && cell.row < view.rows
        }),
    ensures
        crate::render::cursor_shown(
            view,
            state.rects()[state.pane_inside(col, row)->0 as int],
            state.current().panes.len() > 1,
        ) == Some((col, row)),
{
    let out = Seq::new(
        state.current().panes.len(),
        |i: int| panes_area(state.tty_size),
    );
    crate::layout::lemma_placed_len(state.current().layout, panes_area(state.tty_size), out);
    lemma_inside_at(state.rects(), state.framed(), 0, col, row);
}

/// The cell of a pane's own screen that lies under a place of the screen.
pub open spec fn cell_under(state: RmuxState, pane: usize, mouse: WireMouse) -> CursorView {
    let rect = state.rects()[pane as int];
    CursorView {
        col: (mouse.col - rect.x - border(state)) as usize,
        row: (mouse.row - rect.y - border(state)) as usize,
    }
}

/// The wheel over a pane scrolls that pane by three lines, up or down as it is turned, and
/// changes nothing else.
pub proof fn law_wheel_scrolls_pane_under_it(state: RmuxState, mouse: WireMouse, pane: usize)
    requires
        state.pane_inside(mouse.col, mouse.row) == Some(pane),
        mouse.kind == WireMouseKind::ScrollUp || mouse.kind == WireMouseKind::ScrollDown,
    ensures
        state.mouse_handled(mouse, None) == (
            state,
            Some(
                EffectState::Scroll {
                    pane_id: state.session.windows[state.session.active as int].panes[pane as int].id,
                    up: mouse.kind == WireMouseKind::ScrollUp,
                    lines: 3,
                },
            ),
        ),
{
}

/// What a terminal wants to hear of the mouse goes to the pane under it, which is active
/// then.
pub proof fn law_reports_go_to_pane_under_mouse(
    state: RmuxState,
    mouse: WireMouse,
    pane: usize,
    report: Seq<u8>,
)
    requires
        state.session.active < state.session.windows.len(),
        state.reported_pane(mouse) == Some(pane),
    ensures
        ({
            let window = state.session.windows[state.session.active as int];
            let (after, effect) = state.mouse_handled(mouse, Some(report));
            &&& state.pane_inside(mouse.col, mouse.row) == Some(pane)
            &&& effect == Some(
                EffectState::Report {
                    pane_id: window.panes[pane as int].id,
                    bytes: report,
                    to_bottom: false,
                },
            )
            &&& after.session.windows == state.session.windows.update(
                state.session.active as int,
                WindowState { active: pane, ..window },
            )
        }),
{
}

proof fn lemma_pane_with_id(state: RmuxState, pane: usize, from: int)
    requires
        crate::soundness::ids_distinct(state.current().panes),
        0 <= from <= pane < state.current().panes.len(),
    ensures
        crate::state::pane_index(
            state.current().panes,
            state.current().panes[pane as int].id,
            from,
        ) == Some(pane),
    decreases pane - from,
{
    if from < pane {
        lemma_pane_with_id(state, pane, from + 1);
    }
}

/// Pressing the left button in a pane whose terminal does not want the mouse, dragging it
/// to another cell of the pane and letting go selects what lies between the two cells, and
/// makes the pane active. It is copied then.
pub proof fn law_dragging_selects(
    state: RmuxState,
    press: WireMouse,
    drag: WireMouse,
    release: WireMouse,
    pane: usize,
)
    requires
        state.sound(),
        press.kind == WireMouseKind::Down(WireMouseButton::Left),
        drag.kind == WireMouseKind::Drag(WireMouseButton::Left),
        release.kind == WireMouseKind::Up(WireMouseButton::Left),
        state.pane_inside(press.col, press.row) == Some(pane),
        state.pane_inside(drag.col, drag.row) == Some(pane),
    ensures
        ({
            let pressed = state.mouse_handled(press, None);
            let dragged = pressed.0.mouse_handled(drag, None);
            let let_go = dragged.0.mouse_handled(release, None);
            let window = state.session.windows[state.session.active as int];
            &&& pressed.1 == Some(EffectState::Nothing)
            &&& dragged.1 == Some(EffectState::Nothing)
            &&& let_go.1 == Some(EffectState::Nothing)
            &&& let_go.0.session.windows == state.session.windows.update(
                state.session.active as int,
                WindowState { active: pane, ..window },
            )
            &&& let_go.0.selection == Some(
                Selection {
                    pane_id: window.panes[pane as int].id,
                    anchor: cell_under(state, pane, press),
                    head: cell_under(state, pane, drag),
                    dragging: false,
                    moved: true,
                    fresh: true,
                },
            )
        }),
{
    let window = state.current();
    crate::soundness::lemma_session_sound(state);
    crate::soundness::lemma_window_numbered(
        state.session.windows,
        state.session.active as int,
        state.next_pane_id,
    );
    let area = panes_area(state.tty_size);
    let out = Seq::new(window.panes.len(), |i: int| area);
    crate::layout::lemma_placed_len(window.layout, area, out);
    lemma_inside_at(state.rects(), state.framed(), 0, press.col, press.row);
    lemma_inside_at(state.rects(), state.framed(), 0, drag.col, drag.row);
    let pressed = state.mouse_handled(press, None).0;
    let dragged = pressed.mouse_handled(drag, None).0;
    assert(pressed.current() == WindowState { active: pane, ..window });
    assert(pressed.rects() == state.rects());
    lemma_pane_with_id(state, pane, 0);
    lemma_pane_with_id(pressed, pane, 0);
    assert(pressed.pane_with_id(window.panes[pane as int].id) == Some(pane));
    assert(dragged.session.windows == pressed.session.windows);
}

/// A drag that leaves its pane selects up to the nearest cell of the pane.
pub proof fn law_drag_stays_in_its_pane(state: RmuxState, pane: usize, col: u16, row: u16)
    requires
        pane < state.rects().len(),
        state.rects()[pane as int].fits(),
        state.rects()[pane as int].width > 2 * border(state),
        state.rects()[pane as int].height > 2 * border(state),
    ensures
        ({
            let rect = state.rects()[pane as int];
            let cell = state.nearest_cell(pane, col, row);
            let x = rect.x + border(state);
            let y = rect.y + border(state);
            let right = rect.x + rect.width - border(state) - 1;
            let bottom = rect.y + rect.height - border(state) - 1;
            &&& x + cell.col == if col < x {
                x
            } else if col > right {
                right
            } else {
                col as int
            }
            &&& y + cell.row == if row < y {
                y
            } else if row > bottom {
                bottom
            } else {
                row as int
            }
        }),
{
}

/// A press that is let go where it was, without a drag, selects nothing: it makes the pane
/// active, and what was selected before is dropped.
pub proof fn law_click_selects_no_text(
    state: RmuxState,
    press: WireMouse,
    release: WireMouse,
    pane: usize,
)
    requires
        press.kind == WireMouseKind::Down(WireMouseButton::Left),
        release.kind == WireMouseKind::Up(WireMouseButton::Left),
        state.pane_inside(press.col, press.row) == Some(pane),
        !state.in_status(press.row),
        state.session.active < state.session.windows.len(),
    ensures
        ({
            let pressed = state.mouse_handled(press, None).0;
            let let_go = pressed.mouse_handled(release, None).0;
            &&& crate::view::selection_in(
                pressed.selection,
                state.session.windows[state.session.active as int].panes[pane as int].id,
            ) is None
            &&& let_go.selection is None
            &&& let_go.session.windows[state.session.active as int].active == pane
        }),
{
}

} // verus!
