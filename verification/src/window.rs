//! Windows: the panes they hold, which of them is active, and where each lies.

use vstd::prelude::*;
#[allow(unused_imports)]
use vstd::string::*;

use crate::geometry::Rect;
use crate::layout::{PaneLayout, Renumber, EVEN_PANE_WEIGHT};
use crate::protocol::{ResizeDirection, SplitAxis, SwapDirection, TtySize};

verus! {

/// The fewest columns a terminal is given.
pub const MIN_PANE_COLS: u16 = 10;

/// The fewest rows a terminal is given.
pub const MIN_PANE_ROWS: u16 = 3;

/// The most panes a window is split into.
pub const MAX_PANES_PER_WINDOW: usize = 64;

/// A pane: its id, the size of the terminal that runs in it, and the rectangle
/// that the size was last fitted to.
#[derive(Debug, Clone, Copy, PartialEq, Eq, Structural)]
pub struct Pane {
    pub id: u64,
    pub size: TtySize,
    pub last_rect: Option<Rect>,
}

/// The size of a terminal in a rectangle, less a border of one cell where there
/// is one, and never below the least size.
pub open spec fn fitted_size(rect: Rect, framed: bool) -> TtySize {
    let inset: int = if framed {
        2
    } else {
        0
    };
    TtySize {
        cols: crate::geometry::at_least(rect.width - inset, MIN_PANE_COLS as int) as u16,
        rows: crate::geometry::at_least(rect.height - inset, MIN_PANE_ROWS as int) as u16,
    }
}

pub fn fit_size(rect: Rect, framed: bool) -> (result: TtySize)
    ensures
        result == fitted_size(rect, framed),
{
    let inset: u16 = if framed {
        2
    } else {
        0
    };
    let cols: u16 = rect.width.saturating_sub(inset);
    let rows: u16 = rect.height.saturating_sub(inset);
    TtySize {
        cols: if cols > MIN_PANE_COLS {
            cols
        } else {
            MIN_PANE_COLS
        },
        rows: if rows > MIN_PANE_ROWS {
            rows
        } else {
            MIN_PANE_ROWS
        },
    }
}

impl Pane {
    /// Whether the terminal has to be resized to lie in a rectangle.
    pub open spec fn must_resize(self, rect: Rect, framed: bool) -> bool {
        self.last_rect != Some(rect) || self.size != fitted_size(rect, framed)
    }

    /// The pane once its terminal lies in a rectangle.
    pub open spec fn fitted(self, rect: Rect, framed: bool) -> Pane {
        if self.must_resize(rect, framed) {
            Pane { id: self.id, size: fitted_size(rect, framed), last_rect: Some(rect) }
        } else {
            self
        }
    }

    pub fn new(id: u64, size: TtySize) -> (result: Pane)
        ensures
            result == (Pane { id, size, last_rect: None }),
    {
        Pane { id, size, last_rect: None }
    }

    /// Fits the pane to a rectangle; yields the size to give to its terminal
    /// where that changes.
    pub fn resize(&mut self, rect: Rect, framed: bool) -> (result: Option<TtySize>)
        ensures
            *final(self) == old(self).fitted(rect, framed),
            result == if old(self).must_resize(rect, framed) {
                Some(fitted_size(rect, framed))
            } else {
                None
            },
    {
        let size = fit_size(rect, framed);
        let moved = match self.last_rect {
            Some(last) => last != rect,
            None => true,
        };
        if moved || self.size != size {
            self.size = size;
            self.last_rect = Some(rect);
            Some(size)
        } else {
            None
        }
    }

    /// The pane has a new terminal of the same size.
    pub fn respawn(&mut self)
        ensures
            *final(self) == (Pane { last_rect: None, ..*old(self) }),
    {
        self.last_rect = None;
    }
}

/// A window as a mathematical value.
#[verifier::ext_equal]
pub struct WindowState {
    pub id: u64,
    pub name: Seq<char>,
    pub panes: Seq<Pane>,
    pub weights: Seq<u16>,
    pub layout: PaneLayout,
    pub active: usize,
    pub axis: SplitAxis,
    pub synchronized: bool,
}

#[derive(Debug)]
pub struct Window {
    pub id: u64,
    pub name: String,
    pub panes: Vec<Pane>,
    pub pane_weights: Vec<u16>,
    pub layout: PaneLayout,
    pub active: usize,
    pub split_axis: SplitAxis,
    pub synchronize_panes: bool,
}

impl View for Window {
    type V = WindowState;

    open spec fn view(&self) -> WindowState {
        WindowState {
            id: self.id,
            name: self.name@,
            panes: self.panes@,
            weights: self.pane_weights@,
            layout: self.layout,
            active: self.active,
            axis: self.split_axis,
            synchronized: self.synchronize_panes,
        }
    }
}

/// Whether the leaves of a layout can be counted and renumbered.
pub open spec fn countable(layout: PaneLayout) -> bool {
    layout.leaves().len() < usize::MAX && !layout.has(usize::MAX)
}

/// `index` moved to follow the removal of `removed` from `count + 1` things.
pub open spec fn active_after_removal(active: usize, removed: usize, count: nat) -> usize {
    let moved = if active > removed {
        active - 1
    } else {
        active as int
    };
    crate::geometry::at_most(moved, crate::geometry::at_least(count - 1, 0)) as usize
}

impl WindowState {
    /// Every pane has a weight, and the active pane is one of the panes.
    pub open spec fn sound(self) -> bool {
        &&& self.weights.len() == self.panes.len()
        &&& self.panes.len() < usize::MAX
        &&& self.panes.len() > 0 ==> self.active < self.panes.len()
        &&& countable(self.layout)
    }

    /// The window is sound, has a pane, and its layout gives one place to each of
    /// its panes and divides each part of it between two.
    pub open spec fn tiled(self) -> bool {
        &&& self.sound()
        &&& self.panes.len() > 0
        &&& self.layout.matches_panes(self.panes.len())
        &&& self.layout.divided()
    }

    /// The window with the axis and the weights that its layout shows.
    pub open spec fn synced(self) -> WindowState {
        WindowState {
            axis: self.layout.outer_axis(),
            weights: self.layout.shown_weights(self.panes.len()),
            ..self
        }
    }

    /// The window with its layout repaired, and the axis and weights to match.
    pub open spec fn settled(self) -> WindowState {
        WindowState { layout: self.layout.repaired(self.panes.len()), ..self }.synced()
    }

    /// Where a split of the active pane puts the new one.
    pub open spec fn split_place(self) -> usize {
        (self.active + 1) as usize
    }

    /// The window while the active pane is being split: its layout has a place
    /// for the new pane.
    pub open spec fn split_begun(self, axis: SplitAxis) -> WindowState {
        let at = self.split_place();
        WindowState {
            layout: self.layout.renumbered(Renumber::Insert(at)).split_at(self.active, axis, at),
            ..self
        }
    }

    /// The window with the new pane of a split put in and active. Where the
    /// layout had no place to split, all panes are laid out evenly.
    pub open spec fn split_finished(
        self,
        axis: SplitAxis,
        at: usize,
        placed: bool,
        pane: Pane,
    ) -> WindowState {
        let panes = self.panes.insert(at as int, pane);
        WindowState {
            panes,
            active: at,
            layout: if placed {
                self.layout
            } else {
                crate::layout::even_layout(axis, 0, panes.len())
            },
            ..self
        }.settled()
    }

    /// The window without the pane at `index`.
    pub open spec fn pane_taken(self, index: usize) -> WindowState {
        let panes = self.panes.remove(index as int);
        WindowState {
            panes,
            layout: self.layout.without(index).renumbered(Renumber::Remove(index)),
            active: active_after_removal(self.active, index, panes.len()),
            ..self
        }.settled()
    }

    /// The window with a pane put in at the end, beside the active one, and
    /// made active.
    pub open spec fn pane_pushed(self, pane: Pane) -> WindowState {
        let panes = self.panes.push(pane);
        let last = self.panes.len() as usize;
        WindowState {
            panes,
            layout: if self.layout.has(self.active) {
                self.layout.split_at(self.active, SplitAxis::Horizontal, last)
            } else {
                crate::layout::even_layout(SplitAxis::Horizontal, 0, panes.len())
            },
            active: last,
            ..self
        }.settled()
    }

    /// The window with only its active pane left.
    pub open spec fn others_killed(self) -> WindowState {
        WindowState {
            panes: seq![self.panes[self.active as int]],
            layout: PaneLayout::Leaf(0),
            active: 0,
            ..self
        }.synced()
    }

    /// The window with all its panes taken out, before it is given a new one.
    pub open spec fn emptied(self) -> WindowState {
        WindowState { panes: seq![], weights: seq![], ..self }
    }

    /// The window with one new pane and nothing left of the old ones.
    pub open spec fn restarted(self, pane: Pane) -> WindowState {
        WindowState {
            panes: seq![pane],
            layout: PaneLayout::Leaf(0),
            active: 0,
            synchronized: false,
            ..self
        }.synced()
    }

    pub open spec fn next_active(self) -> usize {
        if self.panes.len() == 0 {
            self.active
        } else if self.active + 1 == self.panes.len() {
            0
        } else {
            (self.active + 1) as usize
        }
    }

    pub open spec fn previous_active(self) -> usize {
        if self.panes.len() == 0 {
            self.active
        } else if self.active == 0 {
            (self.panes.len() - 1) as usize
        } else {
            (self.active - 1) as usize
        }
    }

    /// The pane beside the active one in a direction.
    pub open spec fn neighbor(self, direction: SwapDirection) -> Option<usize> {
        match direction {
            SwapDirection::Previous => if self.active > 0 {
                Some((self.active - 1) as usize)
            } else {
                None
            },
            SwapDirection::Next => if self.active + 1 < self.panes.len() {
                Some((self.active + 1) as usize)
            } else {
                None
            },
        }
    }

    /// The window with the active pane and another exchanged; the active pane
    /// stays active at its new place.
    pub open spec fn panes_swapped(self, other: usize) -> WindowState {
        WindowState {
            panes: exchanged(self.panes, self.active as int, other as int),
            weights: exchanged(self.weights, self.active as int, other as int),
            active: other,
            ..self
        }
    }

    /// The window after a resize of the active pane, and whether it worked.
    pub open spec fn active_resized(self, direction: ResizeDirection, amount: u16) -> Option<
        WindowState,
    > {
        if self.panes.len() <= 1 || amount == 0 {
            None
        } else {
            match self.layout.resized(self.active, direction, amount) {
                Some(layout) => Some(WindowState { layout, ..self }.synced()),
                None => None,
            }
        }
    }

    pub open spec fn laid_out_evenly(self, axis: SplitAxis) -> WindowState {
        WindowState {
            layout: crate::layout::even_layout(axis, 0, self.panes.len()),
            ..self
        }.synced()
    }

    /// The panes that typed input goes to.
    pub open spec fn input_panes(self) -> Seq<u64> {
        if self.synchronized {
            self.panes.map_values(|pane: Pane| pane.id)
        } else {
            seq![self.panes[self.active as int].id]
        }
    }

    /// The window with every pane fitted to its rectangle in an area.
    pub open spec fn fitted(self, area: Rect) -> WindowState {
        WindowState {
            panes: Seq::new(
                self.panes.len(),
                |i: int| self.panes[i].fitted(self.pane_rects(area)[i], self.panes.len() > 1),
            ),
            ..self
        }
    }

    /// Where each pane lies in an area.
    pub open spec fn pane_rects(self, area: Rect) -> Seq<Rect> {
        self.layout.placed(area, Seq::new(self.panes.len(), |i: int| area))
    }
}

/// A pane on the screen, and the size to give to its terminal where that
/// changes.
#[derive(Debug, Clone, Copy, PartialEq, Eq, Structural)]
pub struct PanePlacement {
    pub pane_id: u64,
    pub size: Option<TtySize>,
}

pub open spec fn placement(pane: Pane, rect: Rect, framed: bool) -> PanePlacement {
    PanePlacement {
        pane_id: pane.id,
        size: if pane.must_resize(rect, framed) {
            Some(fitted_size(rect, framed))
        } else {
            None
        },
    }
}

/// A sequence with two of its items exchanged.
pub open spec fn exchanged<T>(s: Seq<T>, i: int, j: int) -> Seq<T> {
    s.update(i, s[j]).update(j, s[i])
}

/// The name of a window that was given none.
pub open spec fn default_window_name(id: u64) -> Seq<char> {
    "win"@ + crate::text::decimal(id as nat)
}

/// A window with one pane.
pub open spec fn window_of(id: u64, name: Seq<char>, pane: Pane, weight: u16) -> WindowState {
    WindowState {
        id,
        name,
        panes: seq![pane],
        weights: seq![weight],
        layout: PaneLayout::Leaf(0),
        active: 0,
        axis: SplitAxis::Horizontal,
        synchronized: false,
    }
}

pub fn window_name(id: u64) -> (result: String)
    ensures
        result@ == default_window_name(id),
{
    "win".to_string().concat(crate::text::decimal_string(id as u128).as_str())
}

/// A split that waits for its terminal.
#[derive(Debug, Clone, Copy, PartialEq, Eq, Structural)]
pub struct PendingSplit {
    pub axis: SplitAxis,
    /// The place of the new pane.
    pub at: usize,
    /// Whether the layout has a place for the new pane.
    pub placed: bool,
}

impl Window {
    pub fn new(id: u64, pane: Pane) -> (result: Window)
        ensures
            result@ == window_of(id, default_window_name(id), pane, EVEN_PANE_WEIGHT),
    {
        Window::from_pane(id, window_name(id), pane, EVEN_PANE_WEIGHT)
    }

    pub fn from_pane(id: u64, name: String, pane: Pane, weight: u16) -> (result: Window)
        ensures
            result@ == window_of(id, name@, pane, weight),
    {
        let window = Window {
            id,
            name,
            panes: vec![pane],
            pane_weights: vec![weight],
            layout: PaneLayout::single(),
            active: 0,
            split_axis: SplitAxis::Horizontal,
            synchronize_panes: false,
        };
        assert(window@ =~= window_of(id, name@, pane, weight));
        window
    }

    pub fn active_pane(&self) -> (result: &Pane)
        requires
            self@.sound(),
            self@.panes.len() > 0,
        ensures
            *result == self@.panes[self@.active as int],
    {
        &self.panes[self.active]
    }

    /// The panes that typed input goes to, by id.
    pub fn input_targets(&self) -> (result: Vec<u64>)
        requires
            self@.sound(),
            self@.synchronized || self@.panes.len() > 0,
        ensures
            result@ == self@.input_panes(),
    {
        let mut ids: Vec<u64> = Vec::new();
        if self.synchronize_panes {
            let mut i: usize = 0;
            while i < self.panes.len()
                invariant
                    i <= self.panes@.len(),
                    ids@ == self@.panes.take(i as int).map_values(|pane: Pane| pane.id),
                decreases self.panes@.len() - i,
            {
                ids.push(self.panes[i].id);
                i = i + 1;
                assert(ids@ =~= self@.panes.take(i as int).map_values(|pane: Pane| pane.id));
            }
            assert(self@.panes.take(i as int) == self@.panes);
        } else {
            ids.push(self.active_pane().id);
            assert(ids@ =~= self@.input_panes());
        }
        ids
    }

    fn sync_legacy_layout_fields(&mut self)
        ensures
            final(self)@ == old(self)@.synced(),
    {
        self.split_axis = self.layout.root_axis();
        self.pane_weights = self.layout.pane_weights(self.panes.len());
        assert(self@ =~= old(self)@.synced());
    }

    /// Rebuilds an even layout where the tree no longer maps one leaf to each pane.
    fn repair_layout(&mut self)
        requires
            old(self)@.layout.leaves().len() <= usize::MAX,
        ensures
            final(self)@ == (WindowState {
                layout: old(self)@.layout.repaired(old(self)@.panes.len()),
                ..old(self)@
            }),
    {
        self.layout.repair(self.panes.len());
        assert(self@ =~= (WindowState {
            layout: old(self)@.layout.repaired(old(self)@.panes.len()),
            ..old(self)@
        }));
    }

    /// Begins to split the active pane. `None` where the window has no pane, or
    /// no room for another; the window then stays as it is.
    pub fn begin_split(&mut self, axis: SplitAxis) -> (result: Option<PendingSplit>)
        requires
            old(self)@.sound(),
        ensures
            result is None <==> old(self)@.panes.len() == 0 || old(self)@.panes.len()
                >= MAX_PANES_PER_WINDOW,
            match result {
                Some(pending) => {
                    &&& pending == PendingSplit {
                        axis,
                        at: old(self)@.split_place(),
                        placed: old(self)@.layout.renumbered(
                            Renumber::Insert(old(self)@.split_place()),
                        ).has(old(self)@.active),
                    }
                    &&& final(self)@ == old(self)@.split_begun(axis)
                },
                None => final(self)@ == old(self)@,
            },
    {
        if self.panes.len() == 0 || self.panes.len() >= MAX_PANES_PER_WINDOW {
            return None;
        }
        let active: usize = self.active;
        let at: usize = active + 1;
        self.layout.remap_indices(Renumber::Insert(at));
        let placed = self.layout.split_leaf(active, axis, at);
        assert(self@ =~= old(self)@.split_begun(axis));
        Some(PendingSplit { axis, at, placed })
    }

    /// Puts the pane of a split in its place.
    pub fn finish_split(&mut self, pending: PendingSplit, pane: Pane)
        requires
            pending.at <= old(self)@.panes.len() < usize::MAX,
            old(self)@.weights.len() == old(self)@.panes.len(),
            old(self)@.layout.leaves().len() <= usize::MAX,
        ensures
            final(self)@ == old(self)@.split_finished(
                pending.axis,
                pending.at,
                pending.placed,
                pane,
            ),
    {
        self.panes.insert(pending.at, pane);
        self.pane_weights.insert(pending.at, EVEN_PANE_WEIGHT);
        self.active = pending.at;
        if !pending.placed {
            self.layout = PaneLayout::even(pending.axis, self.panes.len());
            proof {
                crate::layout_laws::law_even_layout_maps_panes(
                    pending.axis,
                    self.panes@.len(),
                );
            }
        }
        self.repair_layout();
        self.sync_legacy_layout_fields();
        assert(self@ =~= old(self)@.split_finished(
            pending.axis,
            pending.at,
            pending.placed,
            pane,
        ));
    }

    pub fn kill_active_pane(&mut self) -> (result: bool)
        requires
            old(self)@.sound(),
        ensures
            result == (old(self)@.panes.len() > 1),
            final(self)@ == if result {
                old(self)@.pane_taken(old(self)@.active)
            } else {
                old(self)@
            },
    {
        if self.panes.len() <= 1 {
            return false;
        }
        self.take_pane(self.active).is_some()
    }

    /// Takes the active pane out, unless it is the last one.
    pub fn take_active_pane(&mut self) -> (result: Option<(Pane, u16)>)
        requires
            old(self)@.sound(),
        ensures
            match result {
                Some(taken) => {
                    &&& old(self)@.panes.len() > 1
                    &&& taken == (
                        old(self)@.panes[old(self)@.active as int],
                        old(self)@.weights[old(self)@.active as int],
                    )
                    &&& final(self)@ == old(self)@.pane_taken(old(self)@.active)
                },
                None => old(self)@.panes.len() <= 1 && final(self)@ == old(self)@,
            },
    {
        if self.panes.len() <= 1 {
            return None;
        }
        self.take_pane(self.active)
    }

    /// Takes a pane out, even the last one.
    pub fn take_pane(&mut self, index: usize) -> (result: Option<(Pane, u16)>)
        requires
            old(self)@.sound(),
        ensures
            match result {
                Some(taken) => {
                    &&& index < old(self)@.panes.len()
                    &&& taken == (old(self)@.panes[index as int], old(self)@.weights[index as int])
                    &&& final(self)@ == old(self)@.pane_taken(index)
                },
                None => index >= old(self)@.panes.len() && final(self)@ == old(self)@,
            },
    {
        if index >= self.panes.len() {
            return None;
        }
        let pane = self.panes.remove(index);
        let weight: u16 = self.pane_weights.remove(index);
        proof {
            crate::layout_laws::lemma_without_shrinks(self.layout, index);
        }
        self.layout.remove_leaf(index);
        proof {
            crate::layout_laws::lemma_renumbered_leaves(self.layout, Renumber::Remove(index));
        }
        self.layout.remap_indices(Renumber::Remove(index));
        if self.active > index {
            self.active = self.active - 1;
        }
        let last: usize = self.panes.len().saturating_sub(1);
        if self.active > last {
            self.active = last;
        }
        self.repair_layout();
        self.sync_legacy_layout_fields();
        assert(self@ =~= old(self)@.pane_taken(index));
        Some((pane, weight))
    }

    /// Takes a pane out and drops it, unless it is the last one.
    pub fn kill_pane(&mut self, index: usize) -> (result: bool)
        requires
            old(self)@.sound(),
        ensures
            result == (old(self)@.panes.len() > 1 && index < old(self)@.panes.len()),
            final(self)@ == if result {
                old(self)@.pane_taken(index)
            } else {
                old(self)@
            },
    {
        if self.panes.len() <= 1 {
            return false;
        }
        self.take_pane(index).is_some()
    }

    pub fn push_pane(&mut self, pane: Pane, weight: u16)
        requires
            old(self)@.sound(),
        ensures
            final(self)@ == old(self)@.pane_pushed(pane),
    {
        let new_index: usize = self.panes.len();
        self.panes.push(pane);
        self.pane_weights.push(weight);
        proof {
            crate::layout_laws::lemma_split_at_grows(
                self.layout,
                self.active,
                SplitAxis::Horizontal,
                new_index,
            );
            crate::layout_laws::law_even_layout_maps_panes(
                SplitAxis::Horizontal,
                self.panes@.len(),
            );
        }
        if !self.layout.split_leaf(self.active, SplitAxis::Horizontal, new_index) {
            self.layout = PaneLayout::even(SplitAxis::Horizontal, self.panes.len());
        }
        self.active = self.panes.len() - 1;
        self.repair_layout();
        self.sync_legacy_layout_fields();
        assert(self@ =~= old(self)@.pane_pushed(pane));
    }

    pub fn kill_other_panes(&mut self) -> (result: bool)
        requires
            old(self)@.sound(),
        ensures
            result == (old(self)@.panes.len() > 1),
            final(self)@ == if result {
                old(self)@.others_killed()
            } else {
                old(self)@
            },
    {
        if self.panes.len() <= 1 {
            return false;
        }
        let pane = self.panes[self.active];
        self.panes = vec![pane];
        self.layout = PaneLayout::single();
        self.active = 0;
        self.sync_legacy_layout_fields();
        assert(self@ =~= old(self)@.others_killed());
        true
    }

    /// The active pane has a new terminal.
    pub fn respawn_active_pane(&mut self)
        requires
            old(self)@.sound(),
            old(self)@.panes.len() > 0,
        ensures
            final(self)@ == (WindowState {
                panes: old(self)@.panes.update(
                    old(self)@.active as int,
                    Pane { last_rect: None, ..old(self)@.panes[old(self)@.active as int] },
                ),
                ..old(self)@
            }),
    {
        let active: usize = self.active;
        let mut pane = self.panes[active];
        pane.respawn();
        self.panes.set(active, pane);
        assert(self@ =~= (WindowState {
            panes: old(self)@.panes.update(active as int, pane),
            ..old(self)@
        }));
    }

    /// Begins to restart the window: its panes go.
    pub fn begin_respawn(&mut self)
        ensures
            final(self)@ == old(self)@.emptied(),
    {
        self.panes.clear();
        self.pane_weights.clear();
        assert(self@ =~= old(self)@.emptied());
    }

    /// Restarts the window with one new pane.
    pub fn respawn(&mut self, pane: Pane)
        ensures
            final(self)@ == old(self)@.restarted(pane),
    {
        self.panes = vec![pane];
        self.pane_weights = vec![EVEN_PANE_WEIGHT];
        self.layout = PaneLayout::single();
        self.active = 0;
        self.sync_legacy_layout_fields();
        self.synchronize_panes = false;
        assert(self@ =~= old(self)@.restarted(pane));
    }

    pub fn next_pane(&mut self)
        requires
            old(self)@.sound(),
        ensures
            final(self)@ == (WindowState { active: old(self)@.next_active(), ..old(self)@ }),
    {
        if self.panes.len() > 0 {
            self.active = if self.active + 1 == self.panes.len() {
                0
            } else {
                self.active + 1
            };
        }
        assert(self@ =~= (WindowState { active: old(self)@.next_active(), ..old(self)@ }));
    }

    pub fn previous_pane(&mut self)
        requires
            old(self)@.sound(),
        ensures
            final(self)@ == (WindowState { active: old(self)@.previous_active(), ..old(self)@ }),
    {
        if self.panes.len() > 0 {
            self.active = if self.active == 0 {
                self.panes.len() - 1
            } else {
                self.active - 1
            };
        }
        assert(self@ =~= (WindowState { active: old(self)@.previous_active(), ..old(self)@ }));
    }

    pub fn select_pane(&mut self, index: usize) -> (result: bool)
        ensures
            result == (index < old(self)@.panes.len()),
            final(self)@ == if result {
                WindowState { active: index, ..old(self)@ }
            } else {
                old(self)@
            },
    {
        if index < self.panes.len() {
            self.active = index;
            assert(self@ =~= (WindowState { active: index, ..old(self)@ }));
            true
        } else {
            false
        }
    }

    fn swap_index(&self, direction: SwapDirection) -> (result: Option<usize>)
        requires
            self@.active < self@.panes.len(),
        ensures
            result == self@.neighbor(direction),
    {
        match direction {
            SwapDirection::Previous => if self.active > 0 {
                Some(self.active - 1)
            } else {
                None
            },
            SwapDirection::Next => if self.active < self.panes.len() - 1 {
                Some(self.active + 1)
            } else {
                None
            },
        }
    }

    pub fn swap_active_pane(&mut self, direction: SwapDirection) -> (result: bool)
        requires
            old(self)@.sound(),
        ensures
            result == (old(self)@.panes.len() > 0 && old(self)@.neighbor(direction) is Some),
            final(self)@ == if result {
                old(self)@.panes_swapped(old(self)@.neighbor(direction)->0)
            } else {
                old(self)@
            },
    {
        if self.active >= self.panes.len() {
            return false;
        }
        let other: usize = match self.swap_index(direction) {
            Some(other) => other,
            None => {
                return false;
            },
        };
        let active: usize = self.active;
        let pane = self.panes[active];
        let neighbor = self.panes[other];
        self.panes.set(active, neighbor);
        self.panes.set(other, pane);
        let weight: u16 = self.pane_weights[active];
        let neighbor_weight: u16 = self.pane_weights[other];
        self.pane_weights.set(active, neighbor_weight);
        self.pane_weights.set(other, weight);
        self.active = other;
        assert(self@ =~= old(self)@.panes_swapped(other));
        true
    }

    pub fn resize_active_pane(&mut self, direction: ResizeDirection, amount: u16) -> (result: bool)
        ensures
            result == (old(self)@.active_resized(direction, amount) is Some),
            final(self)@ == if result {
                old(self)@.active_resized(direction, amount)->0
            } else if old(self)@.panes.len() <= 1 || amount == 0 {
                old(self)@
            } else {
                old(self)@.synced()
            },
    {
        if self.panes.len() <= 1 || amount == 0 {
            return false;
        }
        let resized = self.layout.resize_leaf(self.active, direction, amount);
        self.sync_legacy_layout_fields();
        proof {
            match old(self)@.active_resized(direction, amount) {
                Some(state) => {
                    assert(self@ =~= state);
                },
                None => {
                    assert(self@ =~= old(self)@.synced());
                },
            }
        }
        resized
    }

    pub fn select_layout(&mut self, axis: SplitAxis)
        ensures
            final(self)@ == old(self)@.laid_out_evenly(axis),
    {
        self.layout = PaneLayout::even(axis, self.panes.len());
        self.sync_legacy_layout_fields();
        assert(self@ =~= old(self)@.laid_out_evenly(axis));
    }

    /// Where each pane lies in an area.
    pub fn layout_rects(&self, area: Rect) -> (result: Vec<Rect>)
        ensures
            result@ == self@.pane_rects(area),
    {
        let mut rects = vec![area; self.panes.len()];
        assert(rects@ =~= Seq::new(self@.panes.len(), |i: int| area));
        self.layout.rects(area, &mut rects);
        rects
    }

    /// Fits every pane to its rectangle in an area; yields for each pane the size
    /// to give to its terminal where that changes.
    pub fn fit_panes(&mut self, area: Rect) -> (result: Vec<PanePlacement>)
        ensures
            final(self)@ == old(self)@.fitted(area),
            result@ == Seq::new(
                old(self)@.panes.len(),
                |i: int|
                    placement(
                        old(self)@.panes[i],
                        old(self)@.pane_rects(area)[i],
                        old(self)@.panes.len() > 1,
                    ),
            ),
    {
        let rects = self.layout_rects(area);
        proof {
            crate::layout::lemma_placed_len(
                self@.layout,
                area,
                Seq::new(self@.panes.len(), |i: int| area),
            );
        }
        let count: usize = self.panes.len();
        let framed = count > 1;
        let mut placements: Vec<PanePlacement> = Vec::new();
        let mut i: usize = 0;
        while i < count
            invariant
                i <= count,
                count == self.panes@.len(),
                count == old(self)@.panes.len(),
                framed == (count > 1),
                rects@ == old(self)@.pane_rects(area),
                rects@.len() == count,
                self@ == (WindowState { panes: self.panes@, ..old(self)@ }),
                forall|j: int|
                    0 <= j < count ==> #[trigger] self.panes@[j] == if j < i {
                        old(self)@.panes[j].fitted(rects@[j], framed)
                    } else {
                        old(self)@.panes[j]
                    },
                placements@.len() == i,
                forall|j: int|
                    0 <= j < i ==> #[trigger] placements@[j] == placement(
                        old(self)@.panes[j],
                        rects@[j],
                        framed,
                    ),
            decreases count - i,
        {
            let mut pane = self.panes[i];
            let size = pane.resize(rects[i], framed);
            placements.push(PanePlacement { pane_id: pane.id, size });
            self.panes.set(i, pane);
            i = i + 1;
        }
        assert(self@ =~= old(self)@.fitted(area));
        placements
    }
}

} // verus!
