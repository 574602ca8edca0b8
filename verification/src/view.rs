//! From the multiplexer to what a client sees of it: where the panes lie, and
//! what they and the session show.

use vstd::prelude::*;
#[allow(unused_imports)]
use vstd::string::*;

use crate::geometry::Rect;
use crate::keys::format_key_byte;
use crate::mux::Rmux;
#[allow(unused_imports)]
use crate::protocol::{
    BoundCommand, CursorView, KeyBindingView, PaneCell, PaneView, SelectionView, SessionView,
    SplitAxis, WindowTabView, WireMouse, WireMouseButton, WireMouseKind,
};
use crate::render::{frame_cells_and_text_lines, selection_text, Frame, STATUS_ROWS};
#[allow(unused_imports)]
use crate::render::{frame_reads, frame_shows, selected_text, status_shows, texts, StatusPart};
#[allow(unused_imports)]
use crate::session::optional_text;
use crate::state::Selection;
#[allow(unused_imports)]
use crate::state::{panes_area, tab_at, EffectState, RmuxState};
use crate::window::PanePlacement;
#[allow(unused_imports)]
use crate::window::{placement, WindowState};

verus! {

/// A pane with what its terminal shows.
#[derive(Debug)]
pub struct RawPane {
    pub id: u64,
    pub rect: Rect,
    pub cols: u16,
    pub rows: u16,
    pub max_width: usize,
    pub frame: Frame,
    pub selection: Option<SelectionView>,
}

/// Everything a view is built from.
#[derive(Debug)]
pub struct RawView {
    pub panes: Vec<RawPane>,
    pub session: String,
    pub default_command: Option<String>,
    pub prefix_key: String,
    pub key_bindings: Vec<KeyBindingView>,
    pub windows: Vec<WindowTabView>,
    pub active_window: usize,
    pub active_pane: usize,
    pub split_axis: SplitAxis,
    pub pane_weights: Vec<u16>,
    pub prefix: bool,
    pub message: Option<String>,
    /// Whether what is selected goes on the clipboard.
    pub copies: bool,
}

/// What is shown of a session but for its panes.
#[verifier::ext_equal]
pub struct SessionShown {
    pub session: Seq<char>,
    pub default_command: Option<Seq<char>>,
    pub prefix_key: Seq<char>,
    pub key_bindings: Seq<(char, BoundCommand)>,
    pub windows: Seq<(u64, Seq<char>, bool)>,
    pub active_window: usize,
    pub active_pane: usize,
    pub split_axis: SplitAxis,
    pub pane_weights: Seq<u16>,
    pub prefix: bool,
    pub message: Option<Seq<char>>,
}

/// What is shown of a pane.
#[verifier::ext_equal]
pub struct PaneShown {
    pub id: u64,
    pub rect: Rect,
    pub cols: u16,
    pub rows: u16,
    pub cells: Seq<PaneCell>,
    pub cursor: Option<CursorView>,
    pub scroll_offset: usize,
    pub history_size: usize,
    pub selection: Option<SelectionView>,
    pub lines: Seq<Seq<char>>,
}

pub open spec fn shown_bindings(bindings: Seq<KeyBindingView>) -> Seq<(char, BoundCommand)> {
    bindings.map_values(|binding: KeyBindingView| (binding.key, binding.command))
}

pub open spec fn shown_tabs(tabs: Seq<WindowTabView>) -> Seq<(u64, Seq<char>, bool)> {
    tabs.map_values(|tab: WindowTabView| (tab.id, tab.name@, tab.synchronize_panes))
}

impl RawView {
    pub open spec fn shown(self) -> SessionShown {
        SessionShown {
            session: self.session@,
            default_command: optional_text(self.default_command),
            prefix_key: self.prefix_key@,
            key_bindings: shown_bindings(self.key_bindings@),
            windows: shown_tabs(self.windows@),
            active_window: self.active_window,
            active_pane: self.active_pane,
            split_axis: self.split_axis,
            pane_weights: self.pane_weights@,
            prefix: self.prefix,
            message: optional_text(self.message),
        }
    }
}

impl SessionView {
    pub open spec fn shown(self) -> SessionShown {
        SessionShown {
            session: self.session@,
            default_command: optional_text(self.default_command),
            prefix_key: self.prefix_key@,
            key_bindings: shown_bindings(self.key_bindings@),
            windows: shown_tabs(self.windows@),
            active_window: self.active_window,
            active_pane: self.active_pane,
            split_axis: self.split_axis,
            pane_weights: self.pane_weights@,
            prefix: self.prefix,
            message: optional_text(self.message),
        }
    }
}

impl PaneView {
    pub open spec fn shown(self) -> PaneShown {
        PaneShown {
            id: self.id,
            rect: Rect { x: self.x, y: self.y, width: self.width, height: self.height },
            cols: self.cols,
            rows: self.rows,
            cells: self.cells@,
            cursor: self.cursor,
            scroll_offset: self.scroll_offset,
            history_size: self.history_size,
            selection: self.selection,
            lines: texts(self.lines@),
        }
    }
}

/// What is shown of a pane whose terminal shows a frame.
pub open spec fn pane_built(pane: RawPane) -> PaneShown {
    PaneShown {
        id: pane.id,
        rect: pane.rect,
        cols: pane.cols,
        rows: pane.rows,
        cells: frame_shows(pane.frame, pane.max_width),
        cursor: pane.frame.cursor,
        scroll_offset: pane.frame.display_offset,
        history_size: pane.frame.history_size,
        selection: pane.selection,
        lines: frame_reads(pane.frame, pane.max_width),
    }
}

/// The text that is selected in the first of some panes that has a selection.
pub open spec fn copied(panes: Seq<RawPane>) -> Option<Seq<char>>
    decreases panes.len(),
{
    if panes.len() == 0 {
        None
    } else {
        match panes[0].selection {
            Some(selection) => Some(
                selected_text(frame_reads(panes[0].frame, panes[0].max_width), selection),
            ),
            None => copied(panes.skip(1)),
        }
    }
}

fn build_pane(pane: RawPane) -> (result: PaneView)
    ensures
        result.shown() == pane_built(pane),
{
    let (cells, lines) = frame_cells_and_text_lines(&pane.frame, pane.max_width);
    PaneView {
        id: pane.id,
        x: pane.rect.x,
        y: pane.rect.y,
        width: pane.rect.width,
        height: pane.rect.height,
        cols: pane.cols,
        rows: pane.rows,
        cells,
        cursor: pane.frame.cursor,
        scroll_offset: pane.frame.display_offset,
        history_size: pane.frame.history_size,
        selection: pane.selection,
        lines,
    }
}

/// Builds what a client is sent.
pub fn build_session_view(raw: RawView) -> (result: SessionView)
    ensures
        result.shown() == raw.shown(),
        result.panes@.len() == raw.panes@.len(),
        forall|i: int|
            0 <= i < raw.panes@.len() ==> (#[trigger] result.panes@[i]).shown() == pane_built(
                raw.panes@[i],
            ),
        optional_text(result.clipboard_text) == if raw.copies {
            copied(raw.panes@)
        } else {
            None
        },
{
    let ghost all = raw.panes@;
    let copies = raw.copies;
    let mut left = raw.panes;
    let mut panes: Vec<PaneView> = Vec::new();
    let mut clipboard_text: Option<String> = None;
    assert(all.skip(0) =~= all);
    while left.len() > 0
        invariant
            panes@.len() + left@.len() == all.len(),
            left@ == all.skip(panes@.len() as int),
            forall|i: int|
                0 <= i < panes@.len() ==> (#[trigger] panes@[i]).shown() == pane_built(all[i]),
            copies ==> copied(all) == match clipboard_text {
                Some(text) => Some(text@),
                None => copied(left@),
            },
            !copies ==> clipboard_text is None,
        decreases left@.len(),
    {
        let ghost before = left@;
        let pane = left.remove(0);
        assert(pane == all[panes@.len() as int]);
        assert(left@ =~= before.skip(1));
        assert(left@ =~= all.skip(panes@.len() as int + 1));
        let view = build_pane(pane);
        if copies && clipboard_text.is_none() {
            if let Some(selection) = view.selection {
                clipboard_text = Some(selection_text(&view.lines, selection));
            }
        }
        panes.push(view);
    }
    SessionView {
        session: raw.session,
        default_command: raw.default_command,
        prefix_key: raw.prefix_key,
        key_bindings: raw.key_bindings,
        windows: raw.windows,
        active_window: raw.active_window,
        panes,
        active_pane: raw.active_pane,
        split_axis: raw.split_axis,
        pane_weights: raw.pane_weights,
        prefix: raw.prefix,
        message: raw.message,
        clipboard_text,
    }
}

/// What a selection shows in a pane: nothing in other panes than its own, and
/// nothing before the mouse has moved.
pub open spec fn selection_in(selection: Option<Selection>, pane_id: u64) -> Option<SelectionView> {
    match selection {
        Some(selection) => if selection.pane_id == pane_id && selection.moved {
            Some(SelectionView { start: selection.anchor, end: selection.head })
        } else {
            None
        },
        None => None,
    }
}

impl RmuxState {
    /// What is shown of the session but for its panes.
    pub open spec fn shown(self) -> SessionShown {
        SessionShown {
            session: self.session.name,
            default_command: self.session.default_command,
            prefix_key: crate::keys::key_text(self.session.prefix_key),
            key_bindings: self.session.bindings,
            windows: Seq::new(
                self.session.windows.len(),
                |i: int|
                    (
                        self.session.windows[i].id,
                        self.session.windows[i].name,
                        self.session.windows[i].synchronized,
                    ),
            ),
            active_window: self.session.active,
            active_pane: self.current().active,
            split_axis: self.current().axis,
            pane_weights: self.current().weights,
            prefix: self.prefix,
            message: if self.messages.len() > 0 {
                Some(self.messages.last())
            } else {
                None
            },
        }
    }

    /// A pane of the active window with what its terminal shows.
    pub open spec fn raw_pane(self, index: int, frame: Frame) -> RawPane {
        let pane = self.current().panes[index];
        let rect = self.rects()[index];
        RawPane {
            id: pane.id,
            rect,
            cols: pane.size.cols,
            rows: pane.size.rows,
            max_width: if self.framed() {
                crate::geometry::floored_difference(rect.width, 2) as usize
            } else {
                rect.width as usize
            },
            frame,
            selection: selection_in(self.selection, pane.id),
        }
    }

    /// Every pane of the active window fitted to its rectangle.
    pub open spec fn panes_placed(self) -> RmuxState {
        self.with_current(self.current().fitted(panes_area(self.tty_size)))
    }

    /// The selection with its text put on the clipboard.
    pub open spec fn selection_copied(self) -> RmuxState {
        match self.selection {
            Some(selection) => RmuxState {
                selection: Some(Selection { fresh: false, ..selection }),
                ..self
            },
            None => self,
        }
    }
}

impl Rmux {
    /// Fits the panes of the active window to the screen; yields for each the
    /// size to give to its terminal where that changes.
    pub fn place_panes(&mut self) -> (result: Vec<PanePlacement>)
        requires
            old(self)@.sound(),
        ensures
            final(self)@ == old(self)@.panes_placed(),
            result@ == Seq::new(
                old(self)@.current().panes.len(),
                |i: int|
                    placement(
                        old(self)@.current().panes[i],
                        old(self)@.rects()[i],
                        old(self)@.framed(),
                    ),
            ),
            final(self)@.sound(),
    {
        let ghost before = self@;
        let area = Rect {
            x: 0,
            y: 0,
            width: self.tty_size.cols,
            height: self.tty_size.rows.saturating_sub(STATUS_ROWS),
        };
        proof {
            crate::soundness::lemma_session_sound(before);
            let after = before.current().fitted(area);
            crate::soundness::lemma_same_ids(before, after.panes);
            assert(crate::window_laws::kept(
                before.session.windows[before.session.active as int],
                before.next_pane_id as nat,
            ));
            crate::soundness::lemma_current_changed(before, after);
        }
        let placements = self.session.active_window_mut().fit_panes(area);
        assert(self@ =~= before.panes_placed());
        placements
    }

    /// Collects everything a view is built from. `frames` are what the terminals
    /// of the active window's panes show, in their order.
    pub fn collect_raw_view(&mut self, frames: Vec<Frame>) -> (result: RawView)
        requires
            old(self)@.sound(),
            frames@.len() == old(self)@.current().panes.len(),
        ensures
            result.shown() == old(self)@.shown(),
            result.panes@ == Seq::new(
                frames@.len(),
                |i: int| old(self)@.raw_pane(i, frames@[i]),
            ),
            result.copies == (old(self)@.selection matches Some(selection) && selection.fresh),
            final(self)@ == old(self)@.selection_copied(),
            final(self)@.sound(),
    {
        proof {
            crate::soundness::lemma_session_sound(self@);
            self.session.lemma_counted();
        }
        let panes = self.raw_panes(frames);
        let copies = match self.selection {
            Some(selection) => selection.fresh,
            None => false,
        };
        let key_bindings = self.binding_views();
        let windows = self.tab_views();
        let window = self.session.active_window();
        let count: usize = self.messages.len();
        let message = if count > 0 {
            Some(self.messages[count - 1].as_str().to_string())
        } else {
            None
        };
        let raw = RawView {
            panes,
            session: self.session.name.as_str().to_string(),
            default_command: match &self.session.default_command {
                Some(command) => Some(command.as_str().to_string()),
                None => None,
            },
            prefix_key: format_key_byte(self.session.prefix_key),
            key_bindings,
            windows,
            active_window: self.session.active_window,
            active_pane: window.active,
            split_axis: window.split_axis,
            pane_weights: copy_weights(&window.pane_weights),
            prefix: self.prefix,
            message,
            copies,
        };
        assert(raw.shown() =~= self@.shown());
        if let Some(selection) = self.selection {
            self.selection = Some(
                Selection {
                    pane_id: selection.pane_id,
                    anchor: selection.anchor,
                    head: selection.head,
                    dragging: selection.dragging,
                    moved: selection.moved,
                    fresh: false,
                },
            );
        }
        raw
    }

    /// What a client is shown of the session. `frames` are what the terminals of
    /// the active window's panes show, in their order.
    pub fn session_view(&mut self, frames: Vec<Frame>) -> (result: SessionView)
        requires
            old(self)@.sound(),
            frames@.len() == old(self)@.current().panes.len(),
        ensures
            result.shown() == old(self)@.shown(),
            result.panes@.len() == frames@.len(),
            forall|i: int|
                0 <= i < frames@.len() ==> (#[trigger] result.panes@[i]).shown() == pane_built(
                    old(self)@.raw_pane(i, frames@[i]),
                ),
            optional_text(result.clipboard_text) == if (old(self)@.selection matches Some(selection)
                && selection.fresh) {
                copied(Seq::new(frames@.len(), |i: int| old(self)@.raw_pane(i, frames@[i])))
            } else {
                None
            },
            final(self)@ == old(self)@.selection_copied(),
            final(self)@.sound(),
    {
        build_session_view(self.collect_raw_view(frames))
    }

    fn raw_panes(&self, frames: Vec<Frame>) -> (result: Vec<RawPane>)
        requires
            self@.sound(),
            frames@.len() == self@.current().panes.len(),
        ensures
            result@ == Seq::new(frames@.len(), |i: int| self@.raw_pane(i, frames@[i])),
    {
        proof {
            crate::soundness::lemma_session_sound(self@);
            crate::layout::lemma_placed_len(
                self@.current().layout,
                panes_area(self@.tty_size),
                Seq::new(self@.current().panes.len(), |i: int| panes_area(self@.tty_size)),
            );
        }
        let area = Rect {
            x: 0,
            y: 0,
            width: self.tty_size.cols,
            height: self.tty_size.rows.saturating_sub(STATUS_ROWS),
        };
        let window = self.session.active_window();
        let rects = window.layout_rects(area);
        let framed = window.panes.len() > 1;
        let ghost all = frames@;
        let mut left = frames;
        let mut panes: Vec<RawPane> = Vec::new();
        assert(all.skip(0) =~= all);
        while left.len() > 0
            invariant
                window@ == self@.current(),
                rects@ == self@.rects(),
                rects@.len() == window@.panes.len(),
                all.len() == window@.panes.len(),
                framed == self@.framed(),
                panes@.len() + left@.len() == all.len(),
                left@ == all.skip(panes@.len() as int),
                forall|i: int|
                    0 <= i < panes@.len() ==> #[trigger] panes@[i] == self@.raw_pane(i, all[i]),
            decreases left@.len(),
        {
            let ghost before = left@;
            let index: usize = panes.len();
            let frame = left.remove(0);
            assert(frame == all[index as int]);
            assert(left@ =~= all.skip(index + 1));
            let pane = window.panes[index];
            let rect = rects[index];
            let max_width: usize = if framed {
                rect.width.saturating_sub(2) as usize
            } else {
                rect.width as usize
            };
            panes.push(
                RawPane {
                    id: pane.id,
                    rect,
                    cols: pane.size.cols,
                    rows: pane.size.rows,
                    max_width,
                    frame,
                    selection: self.selection_shown(pane.id),
                },
            );
        }
        assert(panes@ =~= Seq::new(all.len(), |i: int| self@.raw_pane(i, all[i])));
        panes
    }

    fn selection_shown(&self, pane_id: u64) -> (result: Option<SelectionView>)
        ensures
            result == selection_in(self@.selection, pane_id),
    {
        match self.selection {
            Some(selection) => if selection.pane_id == pane_id && selection.moved {
                Some(SelectionView { start: selection.anchor, end: selection.head })
            } else {
                None
            },
            None => None,
        }
    }

    fn binding_views(&self) -> (result: Vec<KeyBindingView>)
        ensures
            shown_bindings(result@) == self@.session.bindings,
    {
        let mut views: Vec<KeyBindingView> = Vec::new();
        let mut i: usize = 0;
        while i < self.session.key_bindings.len()
            invariant
                i <= self.session.key_bindings@.len(),
                views@.len() == i,
                forall|j: int|
                    0 <= j < i ==> {
                        &&& (#[trigger] views@[j]).key == self.session.key_bindings@[j].0
                        &&& views@[j].command == self.session.key_bindings@[j].1
                    },
            decreases self.session.key_bindings@.len() - i,
        {
            let binding = &self.session.key_bindings[i];
            views.push(binding_view(binding.0, binding.1));
            i = i + 1;
        }
        assert(shown_bindings(views@) =~= self@.session.bindings);
        views
    }

    fn tab_views(&self) -> (result: Vec<WindowTabView>)
        ensures
            shown_tabs(result@) == self@.shown().windows,
    {
        let mut views: Vec<WindowTabView> = Vec::new();
        let mut i: usize = 0;
        let ghost windows = self@.session.windows;
        proof {
            self.session.lemma_counted();
        }
        while i < self.session.windows.len()
            invariant
                i <= self.session.windows@.len(),
                windows == self@.session.windows,
                windows.len() == self.session.windows@.len(),
                views@.len() == i,
                forall|j: int|
                    0 <= j < i ==> {
                        &&& (#[trigger] views@[j]).id == windows[j].id
                        &&& views@[j].name@ == windows[j].name
                        &&& views@[j].synchronize_panes == windows[j].synchronized
                    },
            decreases self.session.windows@.len() - i,
        {
            let window = &self.session.windows[i];
            assert(window@ == windows[i as int]);
            views.push(
                WindowTabView {
                    id: window.id,
                    name: window.name.as_str().to_string(),
                    synchronize_panes: window.synchronize_panes,
                },
            );
            i = i + 1;
        }
        assert(shown_tabs(views@) =~= self@.shown().windows);
        views
    }
}

fn binding_view(key: char, command: BoundCommand) -> (result: KeyBindingView)
    ensures
        result.key == key,
        result.command == command,
{
    KeyBindingView { key, command }
}

fn copy_weights(weights: &Vec<u16>) -> (result: Vec<u16>)
    ensures
        result@ == weights@,
{
    let mut copy: Vec<u16> = Vec::new();
    let mut i: usize = 0;
    while i < weights.len()
        invariant
            i <= weights@.len(),
            copy@ == weights@.take(i as int),
        decreases weights@.len() - i,
    {
        copy.push(weights[i]);
        i = i + 1;
    }
    assert(weights@.take(i as int) =~= weights@);
    copy
}

/// The columns that the first pieces of a status bar take.
pub open spec fn columns_before(spans: Seq<(StatusPart, Seq<char>)>, count: int) -> nat
    decreases count,
{
    if count <= 0 {
        0
    } else {
        columns_before(spans, count - 1) + crate::width::text_columns(spans[count - 1].1) as nat
    }
}

/// Passing over the labels before a window's own comes to that window.
proof fn lemma_tab_found(
    windows: Seq<WindowState>,
    spans: Seq<(StatusPart, Seq<char>)>,
    from: int,
    index: int,
    x: u16,
    col: u16,
)
    requires
        0 <= from <= index < windows.len() <= usize::MAX,
        windows.len() < spans.len(),
        forall|i: int|
            0 <= i < windows.len() ==> (#[trigger] spans[i + 1]).1
                == crate::render::window_label(i as nat, windows[i].name, windows[i].id),
        x == columns_before(spans, from + 1) || x == u16::MAX,
        shown_in(spans, index + 1, col),
        x == u16::MAX ==> columns_before(spans, from + 1) >= u16::MAX,
        col < u16::MAX,
    ensures
        tab_at(windows, from, x, col) == Some(index as usize),
    decreases index - from,
{
    assert(spans[from + 1].1 == crate::render::window_label(
        from as nat,
        windows[from].name,
        windows[from].id,
    ));
    lemma_columns_grow(spans, from + 1, index + 1);
    if from < index {
        let end = crate::geometry::capped_sum(
            x,
            crate::width::shown_columns(spans[from + 1].1),
        );
        lemma_columns_grow(spans, from + 2, index + 1);
        lemma_tab_found(windows, spans, from + 1, index, end, col);
    }
}

proof fn lemma_columns_grow(spans: Seq<(StatusPart, Seq<char>)>, a: int, b: int)
    requires
        a <= b,
    ensures
        columns_before(spans, a) <= columns_before(spans, b),
    decreases b - a,
{
    if a < b {
        lemma_columns_grow(spans, a, b - 1);
    }
}

/// Where no label is shown in a column, passing over all labels finds no window.
proof fn lemma_tab_missed(
    windows: Seq<WindowState>,
    spans: Seq<(StatusPart, Seq<char>)>,
    from: int,
    x: u16,
    col: u16,
)
    requires
        0 <= from <= windows.len() <= usize::MAX,
        windows.len() < spans.len(),
        forall|i: int|
            0 <= i < windows.len() ==> (#[trigger] spans[i + 1]).1
                == crate::render::window_label(i as nat, windows[i].name, windows[i].id),
        forall|i: int| 0 <= i < windows.len() ==> !#[trigger] shown_in(spans, i + 1, col),
        x == columns_before(spans, from + 1) || x == u16::MAX,
        x == u16::MAX ==> columns_before(spans, from + 1) >= u16::MAX,
    ensures
        tab_at(windows, from, x, col) is None,
    decreases windows.len() - from,
{
    if from < windows.len() {
        assert(spans[from + 1].1 == crate::render::window_label(
            from as nat,
            windows[from].name,
            windows[from].id,
        ));
        assert(!shown_in(spans, from + 1, col));
        let end = crate::geometry::capped_sum(
            x,
            crate::width::shown_columns(spans[from + 1].1),
        );
        lemma_tab_missed(windows, spans, from + 1, end, col);
    }
}

/// Whether a piece of a status bar is shown in a column.
pub open spec fn shown_in(spans: Seq<(StatusPart, Seq<char>)>, piece: int, col: u16) -> bool {
    columns_before(spans, piece) <= col < columns_before(spans, piece + 1)
}

/// The status bar starts with the label of the session, and goes on with the
/// labels of the windows.
proof fn lemma_labels(state: RmuxState, view: SessionView)
    requires
        view.shown() == state.shown(),
    ensures
        ({
            let spans = status_shows(view);
            let windows = state.session.windows;
            &&& windows.len() < spans.len()
            &&& columns_before(spans, 1) == crate::width::text_columns(
                crate::render::session_label(state.session.name),
            )
            &&& forall|i: int|
                0 <= i < windows.len() ==> (#[trigger] spans[i + 1]).1
                    == crate::render::window_label(i as nat, windows[i].name, windows[i].id)
        }),
{
    let spans = status_shows(view);
    let windows = state.session.windows;
    assert(shown_tabs(view.windows@).len() == view.windows@.len());
    assert(state.shown().windows.len() == windows.len());
    assert(shown_tabs(view.windows@) == view.shown().windows);
    assert(spans[0].1 == crate::render::session_label(state.session.name));
    assert forall|i: int| 0 <= i < windows.len() implies (#[trigger] spans[i + 1]).1
        == crate::render::window_label(i as nat, windows[i].name, windows[i].id) by {
        assert(view.shown().windows[i] == state.shown().windows[i]);
        assert(spans[i + 1] == crate::render::window_spans(view)[i]);
    }
    reveal_with_fuel(columns_before, 2);
}

/// A click on the status bar selects the window whose label is shown in that
/// column. (No label is shown in the last column that can be counted.)
pub proof fn law_click_selects_window_shown(
    state: RmuxState,
    view: SessionView,
    index: usize,
    mouse: WireMouse,
    report: Option<Seq<u8>>,
)
    requires
        state.sound(),
        view.shown() == state.shown(),
        mouse.kind == WireMouseKind::Down(WireMouseButton::Left),
        state.in_status(mouse.row),
        index < state.session.windows.len(),
        shown_in(status_shows(view), index + 1, mouse.col),
        mouse.col < u16::MAX,
    ensures
        state.mouse_handled(mouse, report) == (
            RmuxState { session: state.session.chosen(index), ..state },
            Some(EffectState::Nothing),
        ),
{
    let spans = status_shows(view);
    lemma_labels(state, view);
    crate::soundness::lemma_session_sound(state);
    let x = crate::width::shown_columns(crate::render::session_label(state.session.name));
    lemma_tab_found(state.session.windows, spans, 0, index as int, x, mouse.col);
}

/// A click on the status bar where no window's label is shown selects nothing and
/// changes nothing.
pub proof fn law_click_beside_labels_does_nothing(
    state: RmuxState,
    view: SessionView,
    mouse: WireMouse,
    report: Option<Seq<u8>>,
)
    requires
        state.sound(),
        view.shown() == state.shown(),
        mouse.kind == WireMouseKind::Down(WireMouseButton::Left),
        state.in_status(mouse.row),
        forall|index: int|
            0 <= index < state.session.windows.len() ==> !#[trigger] shown_in(
                status_shows(view),
                index + 1,
                mouse.col,
            ),
    ensures
        state.mouse_handled(mouse, report) == (state, None::<EffectState>),
{
    let spans = status_shows(view);
    lemma_labels(state, view);
    crate::soundness::lemma_session_sound(state);
    let x = crate::width::shown_columns(crate::render::session_label(state.session.name));
    lemma_tab_missed(state.session.windows, spans, 0, x, mouse.col);
}

/// Panes that were fitted to the screen are not fitted again until something
/// changes.
pub proof fn law_placed_panes_stay_placed(state: RmuxState)
    requires
        state.sound(),
    ensures
        state.panes_placed().panes_placed() == state.panes_placed(),
        forall|i: int|
            0 <= i < state.current().panes.len() ==> (#[trigger] placement(
                state.panes_placed().current().panes[i],
                state.panes_placed().rects()[i],
                state.panes_placed().framed(),
            )).size is None,
{
    crate::soundness::lemma_session_sound(state);
    let window = state.current();
    let area = panes_area(state.tty_size);
    let placed = state.panes_placed();
    assert(placed.current() == window.fitted(area));
    assert(Seq::new(window.panes.len(), |i: int| area) =~= Seq::new(
        placed.current().panes.len(),
        |i: int| area,
    ));
    assert(placed.current().pane_rects(area) == window.pane_rects(area));
    assert(placed.current().fitted(area) =~= placed.current());
    assert(placed.panes_placed() =~= placed);
}

/// What was selected goes on the clipboard with one view, and with no other.
pub proof fn law_selection_is_copied_once(state: RmuxState)
    ensures
        !(state.selection_copied().selection matches Some(selection) && selection.fresh),
        state.selection_copied().shown() == state.shown(),
{
}

} // verus!
