//! What holds of every window: its panes tile it, each pane has a place, and
//! what one operation did another takes back.

use vstd::prelude::*;

#[allow(unused_imports)]
use crate::geometry::Rect;
#[allow(unused_imports)]
use crate::layout::{PaneLayout, Renumber, EVEN_PANE_WEIGHT};
#[allow(unused_imports)]
use crate::protocol::{ResizeDirection, SplitAxis, SwapDirection};
#[allow(unused_imports)]
use crate::window::{Pane, WindowState};

verus! {

/// Whether a layout has at most `limit` leaves, all numbered below it.
pub open spec fn bounded(layout: PaneLayout, limit: nat) -> bool {
    &&& layout.leaves().len() <= limit
    &&& forall|i: usize| #[trigger] layout.has(i) ==> i < limit
}

/// A window that is sound, with a bounded layout.
pub open spec fn kept(window: WindowState, limit: nat) -> bool {
    window.sound() && bounded(window.layout, limit)
}

proof fn lemma_repaired_bounded(layout: PaneLayout, count: nat, limit: nat)
    requires
        count <= limit < usize::MAX,
        limit >= 1,
    ensures
        bounded(layout.repaired(count), limit),
{
    if count >= 1 {
        crate::layout_laws::law_repaired_maps_panes(layout, count);
        crate::layout_laws::lemma_matches_panes(layout.repaired(count), count);
    } else {
        reveal(PaneLayout::has);
        assert(layout.leaves().len() >= 1) by {
            lemma_some_leaf(layout);
        }
        assert(layout.repaired(count) == PaneLayout::Leaf(0));
        assert(layout.repaired(count).leaves() =~= seq![0usize]);
    }
}

proof fn lemma_some_leaf(layout: PaneLayout)
    ensures
        layout.leaves().len() >= 1,
    decreases layout,
{
    if let PaneLayout::Split { first, .. } = layout {
        lemma_some_leaf(*first);
    }
}

/// A settled window is sound, and each of its panes has one place.
pub proof fn lemma_settled(window: WindowState, limit: nat)
    requires
        window.panes.len() <= limit < usize::MAX,
        limit >= 1,
        window.panes.len() > 0 ==> window.active < window.panes.len(),
    ensures
        kept(window.settled(), limit),
        window.panes.len() > 0 ==> window.settled().layout.matches_panes(window.panes.len()),
{
    lemma_repaired_bounded(window.layout, window.panes.len(), limit);
    if window.panes.len() > 0 {
        crate::layout_laws::law_repaired_maps_panes(window.layout, window.panes.len());
    }
}

pub proof fn lemma_split_begun(window: WindowState, axis: SplitAxis, limit: nat)
    requires
        kept(window, limit),
        0 < window.panes.len() <= limit,
        limit + 1 < usize::MAX,
    ensures
        kept(window.split_begun(axis), limit + 1),
{
    let at = window.split_place();
    let moved = window.layout.renumbered(Renumber::Insert(at));
    crate::layout_laws::lemma_renumbered(window.layout, Renumber::Insert(at));
    crate::layout_laws::lemma_renumbered_leaves(window.layout, Renumber::Insert(at));
    assert forall|j: usize| #[trigger] moved.has(j) implies j < limit + 1 by {
        if j > at {
            assert(window.layout.has((j - 1) as usize));
        }
    }
    crate::layout_laws::lemma_split_at_grows(moved, window.active, axis, at);
}

/// A window that was split stays tiled, and the new pane has a place.
pub proof fn law_split_keeps_window_tiled(window: WindowState, axis: SplitAxis, pane: Pane)
    requires
        window.tiled(),
        window.panes.len() + 1 < usize::MAX,
    ensures
        ({
            let at = window.split_place();
            let split = window.split_begun(axis).split_finished(axis, at, true, pane);
            &&& split.tiled()
            &&& split.panes == window.panes.insert(at as int, pane)
            &&& split.layout == window.split_begun(axis).layout
            &&& split.active == at
            &&& window.layout.renumbered(Renumber::Insert(at)).has(window.active)
        }),
{
    let at = window.split_place();
    let count = window.panes.len();
    crate::layout_laws::law_split_maps_panes(window.layout, count, window.active, axis);
    let split = window.split_begun(axis).split_finished(axis, at, true, pane);
    assert(split.layout == window.split_begun(axis).layout);
    crate::layout_laws::lemma_matches_panes(split.layout, count + 1);
    crate::layout_laws::lemma_matches_panes(window.layout, count);
    crate::layout_laws::lemma_renumbered(window.layout, Renumber::Insert(at));
}

/// A window that lost one of two or more panes stays tiled by the others.
pub proof fn law_removal_keeps_window_tiled(window: WindowState, index: usize)
    requires
        window.tiled(),
        window.panes.len() >= 2,
        index < window.panes.len(),
    ensures
        window.pane_taken(index).tiled(),
        window.pane_taken(index).panes == window.panes.remove(index as int),
        window.pane_taken(index).layout == window.layout.without(index).renumbered(
            Renumber::Remove(index),
        ),
{
    let count = window.panes.len();
    crate::layout_laws::law_removal_maps_panes(window.layout, count, index);
    let taken = window.pane_taken(index);
    crate::layout_laws::lemma_matches_panes(taken.layout, (count - 1) as nat);
}

/// Taking out the pane that a split made gives back the panes and the layout
/// from before.
pub proof fn law_removal_undoes_window_split(window: WindowState, axis: SplitAxis, pane: Pane)
    requires
        window.tiled(),
        window.panes.len() + 1 < usize::MAX,
    ensures
        ({
            let at = window.split_place();
            let back = window.split_begun(axis).split_finished(axis, at, true, pane).pane_taken(at);
            &&& back.panes == window.panes
            &&& back.layout == window.layout
        }),
{
    let at = window.split_place();
    let count = window.panes.len();
    let split = window.split_begun(axis).split_finished(axis, at, true, pane);
    law_split_keeps_window_tiled(window, axis, pane);
    law_removal_keeps_window_tiled(split, at);
    crate::layout_laws::law_removal_undoes_split(window.layout, count, window.active, axis);
    assert(split.pane_taken(at).panes =~= window.panes);
}

/// A window that was given a pane stays tiled: the pane lies beside the one
/// that was active.
pub proof fn law_push_keeps_window_tiled(window: WindowState, pane: Pane)
    requires
        window.tiled(),
        window.panes.len() + 1 < usize::MAX,
    ensures
        window.pane_pushed(pane).tiled(),
        window.pane_pushed(pane).panes == window.panes.push(pane),
        window.pane_pushed(pane).layout == window.layout.split_at(
            window.active,
            SplitAxis::Horizontal,
            window.panes.len() as usize,
        ),
{
    let count = window.panes.len();
    let last = count as usize;
    let layout = window.layout;
    crate::layout_laws::lemma_matches_panes(layout, count);
    assert(layout.has(window.active));
    crate::layout_laws::lemma_split_at(layout, window.active, SplitAxis::Horizontal, last);
    let split = layout.split_at(window.active, SplitAxis::Horizontal, last);
    crate::layout_laws::lemma_matches_panes(split, count + 1);
}

/// Laying the panes of a window out evenly tiles it, however many there are.
pub proof fn law_even_window_is_tiled(window: WindowState, axis: SplitAxis)
    requires
        window.sound(),
        window.panes.len() > 0,
    ensures
        window.laid_out_evenly(axis).tiled(),
{
    let count = window.panes.len();
    crate::layout_laws::law_even_layout_maps_panes(axis, count);
    crate::layout_laws::law_even_layout_is_divided(axis, 0, count);
    crate::layout_laws::lemma_matches_panes(
        crate::layout::even_layout(axis, 0, count),
        count,
    );
}

/// Resizing keeps a window tiled, with every pane in its place.
pub proof fn law_resize_keeps_window_tiled(
    window: WindowState,
    direction: ResizeDirection,
    amount: u16,
)
    requires
        window.tiled(),
    ensures
        match window.active_resized(direction, amount) {
            Some(resized) => {
                &&& resized.tiled()
                &&& resized.panes == window.panes
                &&& resized.active == window.active
                &&& resized.layout.leaves() == window.layout.leaves()
            },
            None => true,
        },
{
    crate::layout_laws::law_resizing_keeps_panes(window.layout, window.active, direction, amount);
    if let Some(resized) = window.active_resized(direction, amount) {
        lemma_same_leaves(resized.layout, window.layout);
    }
}

proof fn lemma_same_leaves(a: PaneLayout, b: PaneLayout)
    requires
        a.leaves() == b.leaves(),
    ensures
        forall|i: usize| #[trigger] a.has(i) == b.has(i),
{
    reveal(PaneLayout::has);
}

/// A window of one pane is tiled by it, and so is one that keeps only its
/// active pane or is restarted.
pub proof fn law_single_pane_tiles_window(window: WindowState, pane: Pane)
    ensures
        window.restarted(pane).tiled(),
        window.sound() && window.panes.len() > 0 ==> window.others_killed().tiled(),
        forall|id: u64, name: Seq<char>, weight: u16| #[trigger]
            crate::window::window_of(id, name, pane, weight).tiled(),
{
    lemma_single();
}

proof fn lemma_single()
    ensures
        PaneLayout::Leaf(0).matches_panes(1),
        PaneLayout::Leaf(0).leaves().len() == 1,
        forall|i: usize| #[trigger] PaneLayout::Leaf(0).has(i) ==> i == 0,
{
    reveal(PaneLayout::has);
    assert(PaneLayout::Leaf(0).leaves()[0] == 0);
    assert(PaneLayout::Leaf(0).leaves() =~= seq![0usize]);
}

pub proof fn lemma_single_bounded(limit: nat)
    requires
        limit >= 1,
    ensures
        bounded(PaneLayout::Leaf(0), limit),
{
    lemma_single();
}

/// A resize that fails, a swap and a change of the active pane keep a window
/// tiled.
pub proof fn law_lesser_changes_keep_window_tiled(window: WindowState, direction: SwapDirection)
    requires
        window.tiled(),
    ensures
        window.synced().tiled(),
        match window.neighbor(direction) {
            Some(other) => window.panes_swapped(other).tiled(),
            None => true,
        },
        (WindowState { active: window.next_active(), ..window }).tiled(),
        (WindowState { active: window.previous_active(), ..window }).tiled(),
{
}

/// Swapping the active pane one way and then the other changes nothing.
pub proof fn law_swap_back(window: WindowState)
    requires
        window.sound(),
        window.panes.len() > 0,
    ensures
        match window.neighbor(SwapDirection::Next) {
            Some(other) => {
                let swapped = window.panes_swapped(other);
                &&& swapped.neighbor(SwapDirection::Previous) == Some(window.active)
                &&& swapped.panes_swapped(window.active) == window
            },
            None => true,
        },
        match window.neighbor(SwapDirection::Previous) {
            Some(other) => {
                let swapped = window.panes_swapped(other);
                &&& swapped.neighbor(SwapDirection::Next) == Some(window.active)
                &&& swapped.panes_swapped(window.active) == window
            },
            None => true,
        },
{
    if let Some(other) = window.neighbor(SwapDirection::Next) {
        assert(window.panes_swapped(other).panes_swapped(window.active) =~= window);
    }
    if let Some(other) = window.neighbor(SwapDirection::Previous) {
        assert(window.panes_swapped(other).panes_swapped(window.active) =~= window);
    }
}

/// Going to the next pane and then to the previous one, or the other way
/// round, comes back to the same pane.
pub proof fn law_next_and_previous_pane(window: WindowState)
    requires
        window.sound(),
    ensures
        (WindowState { active: window.next_active(), ..window }).previous_active()
            == window.active,
        (WindowState { active: window.previous_active(), ..window }).next_active()
            == window.active,
{
}

/// The rectangles of the panes of a tiled window cover every cell of the area
/// once and reach nowhere else.
pub proof fn law_window_covers_area(window: WindowState, area: Rect)
    requires
        window.tiled(),
        area.fits(),
    ensures
        window.pane_rects(area).len() == window.panes.len(),
        forall|i: int|
            0 <= i < window.panes.len() ==> crate::layout_laws::within(
                #[trigger] window.pane_rects(area)[i],
                area,
            ),
        forall|i: int, j: int, col: int, row: int|
            #![trigger window.pane_rects(area)[i].covers(col, row), window.pane_rects(area)[j].covers(col, row)]
            0 <= i < window.panes.len() && 0 <= j < window.panes.len() && window.pane_rects(
                area,
            )[i].covers(col, row) && window.pane_rects(area)[j].covers(col, row) ==> i == j,
        forall|col: int, row: int| #[trigger]
            area.covers(col, row) ==> exists|i: int|
                0 <= i < window.panes.len() && (#[trigger] window.pane_rects(area)[i]).covers(
                    col,
                    row,
                ),
{
    let out = Seq::new(window.panes.len(), |i: int| area);
    let layout = window.layout;
    crate::layout_laws::lemma_matches_leaves(layout, out.len());
    crate::layout_laws::law_panes_tile_area(layout, area, out);
    assert(window.pane_rects(area) == layout.placed(area, out));
    assert forall|i: int| 0 <= i < window.panes.len() implies crate::layout_laws::within(
        #[trigger] window.pane_rects(area)[i],
        area,
    ) by {
        assert(layout.leaves().contains(i as usize));
    }
    assert forall|i: int, j: int, col: int, row: int|
        #![trigger window.pane_rects(area)[i].covers(col, row), window.pane_rects(area)[j].covers(col, row)]
        0 <= i < window.panes.len() && 0 <= j < window.panes.len() && window.pane_rects(
            area,
        )[i].covers(col, row) && window.pane_rects(area)[j].covers(col, row) implies i == j by {
        assert(layout.leaves().contains(i as usize) && layout.leaves().contains(j as usize));
        assert(layout.placed(area, out)[i as usize as int].covers(col, row));
        assert(layout.placed(area, out)[j as usize as int].covers(col, row));
    }
    assert forall|col: int, row: int| #[trigger] area.covers(col, row) implies exists|i: int|
        0 <= i < window.panes.len() && (#[trigger] window.pane_rects(area)[i]).covers(
            col,
            row,
        ) by {
        let i = choose|i: usize| #[trigger]
            layout.leaves().contains(i) && layout.placed(area, out)[i as int].covers(col, row);
        assert(window.pane_rects(area)[i as int].covers(col, row));
    }
}

} // verus!
