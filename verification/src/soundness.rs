//! What holds of the multiplexer at all times: a window is active, every window
//! is sound, and no two panes and no two windows share an id.

use vstd::prelude::*;

#[allow(unused_imports)]
use crate::layout::{PaneLayout, EVEN_PANE_WEIGHT};
#[allow(unused_imports)]
use crate::protocol::{ResizeDirection, SplitAxis, SwapDirection};
#[allow(unused_imports)]
use crate::session::SessionState;
#[allow(unused_imports)]
use crate::state::{is_pane, RmuxState};
#[allow(unused_imports)]
use crate::window::{window_of, Pane, WindowState};
#[allow(unused_imports)]
use crate::window_laws::{bounded, kept};

verus! {

/// Whether every pane has an id below `next` that no other pane has.
pub open spec fn panes_numbered(windows: Seq<WindowState>, next: u64) -> bool {
    &&& forall|w: int, i: int| #[trigger]
        is_pane(windows, w, i) ==> windows[w].panes[i].id < next
    &&& forall|w: int, i: int, v: int, j: int|
        #![trigger is_pane(windows, w, i), is_pane(windows, v, j)]
        is_pane(windows, w, i) && is_pane(windows, v, j) && windows[w].panes[i].id
            == windows[v].panes[j].id ==> w == v && i == j
}

/// Whether every window has an id below `next` that no other window has.
pub open spec fn windows_numbered(windows: Seq<WindowState>, next: u64) -> bool {
    &&& forall|w: int| 0 <= w < windows.len() ==> (#[trigger] windows[w]).id < next
    &&& forall|w: int, v: int|
        #![trigger windows[w], windows[v]]
        0 <= w < windows.len() && 0 <= v < windows.len() && windows[w].id == windows[v].id ==> w
            == v
}

/// Whether every window is sound, with a layout of at most `limit` leaves.
pub open spec fn windows_kept(windows: Seq<WindowState>, limit: nat) -> bool {
    forall|w: int| 0 <= w < windows.len() ==> kept(#[trigger] windows[w], limit)
}

impl RmuxState {
    /// What holds of the multiplexer at all times.
    pub open spec fn sound(self) -> bool {
        &&& self.session.active < self.session.windows.len() <= usize::MAX
        &&& panes_numbered(self.session.windows, self.next_pane_id)
        &&& windows_numbered(self.session.windows, self.next_window_id)
        &&& windows_kept(self.session.windows, self.next_pane_id as nat)
        &&& 1 <= self.next_pane_id < usize::MAX
        &&& self.messages.len() <= 5
    }

    /// Whether there is an id left for another pane.
    pub open spec fn has_pane_id(self) -> bool {
        self.next_pane_id + 1 < usize::MAX && self.next_pane_id < u64::MAX
    }

    /// Whether there is an id left for another window.
    pub open spec fn has_window_id(self) -> bool {
        self.next_window_id < u64::MAX
    }
}

/// Whether one of some panes has an id.
pub open spec fn id_among(panes: Seq<Pane>, id: u64) -> bool {
    exists|i: int| 0 <= i < panes.len() && (#[trigger] panes[i]).id == id
}

pub open spec fn ids_distinct(panes: Seq<Pane>) -> bool {
    forall|i: int, j: int|
        #![trigger panes[i], panes[j]]
        0 <= i < panes.len() && 0 <= j < panes.len() && panes[i].id == panes[j].id ==> i == j
}

/// Whether no pane of any window has an id.
pub open spec fn id_unused(windows: Seq<WindowState>, id: u64) -> bool {
    forall|w: int, i: int| #[trigger]
        is_pane(windows, w, i) ==> windows[w].panes[i].id != id
}

/// There are no more panes with ids of their own than there are ids.
proof fn lemma_panes_counted(panes: Seq<Pane>, next: u64)
    requires
        ids_distinct(panes),
        forall|i: int| 0 <= i < panes.len() ==> (#[trigger] panes[i]).id < next,
    ensures
        panes.len() <= next,
{
    let ids = panes.map_values(|pane: Pane| pane.id as int);
    let range = vstd::set_lib::set_int_range(0, next as int);
    vstd::set_lib::lemma_int_range(0, next as int);
    assert(ids.no_duplicates());
    ids.unique_seq_to_set();
    assert(ids.to_set().subset_of(range)) by {
        assert forall|x: int| ids.to_set().contains(x) implies range.contains(x) by {
            let i = choose|i: int| 0 <= i < ids.len() && ids[i] == x;
            assert(panes[i].id < next);
        }
    }
    vstd::set_lib::lemma_len_subset(ids.to_set(), range);
}

pub proof fn lemma_window_numbered(windows: Seq<WindowState>, w: int, next: u64)
    requires
        panes_numbered(windows, next),
        0 <= w < windows.len(),
    ensures
        ids_distinct(windows[w].panes),
        forall|i: int|
            0 <= i < windows[w].panes.len() ==> (#[trigger] windows[w].panes[i]).id < next,
        windows[w].panes.len() <= next,
{
    let panes = windows[w].panes;
    assert forall|i: int, j: int|
        #![trigger panes[i], panes[j]]
        0 <= i < panes.len() && 0 <= j < panes.len() && panes[i].id == panes[j].id implies i
        == j by {
        assert(is_pane(windows, w, i) && is_pane(windows, w, j));
    }
    assert forall|i: int| 0 <= i < panes.len() implies (#[trigger] panes[i]).id < next by {
        assert(is_pane(windows, w, i));
    }
    lemma_panes_counted(panes, next);
}

/// A window takes the place of another, with panes of the other and new ones.
proof fn lemma_replaced(
    windows: Seq<WindowState>,
    w: int,
    after: WindowState,
    fresh: Set<u64>,
    next: u64,
    next_after: u64,
)
    requires
        panes_numbered(windows, next),
        0 <= w < windows.len(),
        next <= next_after,
        ids_distinct(after.panes),
        forall|i: int|
            0 <= i < after.panes.len() ==> id_among(
                windows[w].panes,
                (#[trigger] after.panes[i]).id,
            ) || fresh.contains(after.panes[i].id),
        forall|id: u64| #[trigger]
            fresh.contains(id) ==> id < next_after && id_unused(windows, id),
    ensures
        panes_numbered(windows.update(w, after), next_after),
{
    let changed = windows.update(w, after);
    assert forall|v: int, i: int| #[trigger]
        is_pane(changed, v, i) implies changed[v].panes[i].id < next_after by {
        if v == w {
            let id = after.panes[i].id;
            if id_among(windows[w].panes, id) {
                let j = choose|j: int|
                    0 <= j < windows[w].panes.len() && (#[trigger] windows[w].panes[j]).id == id;
                assert(is_pane(windows, w, j));
            }
        } else {
            assert(is_pane(windows, v, i));
        }
    }
    assert forall|a: int, i: int, b: int, j: int|
        #![trigger is_pane(changed, a, i), is_pane(changed, b, j)]
        is_pane(changed, a, i) && is_pane(changed, b, j) && changed[a].panes[i].id
            == changed[b].panes[j].id implies a == b && i == j by {
        if a == w && b == w {
            assert(after.panes[i].id == after.panes[j].id);
        } else if a == w {
            lemma_not_elsewhere(windows, w, after.panes[i].id, fresh, next, b, j);
        } else if b == w {
            lemma_not_elsewhere(windows, w, after.panes[j].id, fresh, next, a, i);
        } else {
            assert(is_pane(windows, a, i) && is_pane(windows, b, j));
        }
    }
}

proof fn lemma_not_elsewhere(
    windows: Seq<WindowState>,
    w: int,
    id: u64,
    fresh: Set<u64>,
    next: u64,
    v: int,
    j: int,
)
    requires
        panes_numbered(windows, next),
        0 <= w < windows.len(),
        id_among(windows[w].panes, id) || fresh.contains(id),
        fresh.contains(id) ==> id_unused(windows, id),
        is_pane(windows, v, j),
        v != w,
    ensures
        windows[v].panes[j].id != id,
{
    if id_among(windows[w].panes, id) {
        let i = choose|i: int|
            0 <= i < windows[w].panes.len() && (#[trigger] windows[w].panes[i]).id == id;
        assert(is_pane(windows, w, i));
    }
}

pub proof fn lemma_window_removed(windows: Seq<WindowState>, w: int, next: u64)
    requires
        panes_numbered(windows, next),
        0 <= w < windows.len(),
    ensures
        panes_numbered(windows.remove(w), next),
        forall|i: int|
            0 <= i < windows[w].panes.len() ==> id_unused(
                windows.remove(w),
                (#[trigger] windows[w].panes[i]).id,
            ),
{
    let rest = windows.remove(w);
    assert forall|v: int, i: int| #[trigger] is_pane(rest, v, i) implies rest[v].panes[i].id
        < next by {
        assert(is_pane(windows, if v < w { v } else { v + 1 }, i));
    }
    assert forall|a: int, i: int, b: int, j: int|
        #![trigger is_pane(rest, a, i), is_pane(rest, b, j)]
        is_pane(rest, a, i) && is_pane(rest, b, j) && rest[a].panes[i].id
            == rest[b].panes[j].id implies a == b && i == j by {
        assert(is_pane(windows, if a < w { a } else { a + 1 }, i));
        assert(is_pane(windows, if b < w { b } else { b + 1 }, j));
    }
    assert forall|i: int| 0 <= i < windows[w].panes.len() implies id_unused(
        rest,
        (#[trigger] windows[w].panes[i]).id,
    ) by {
        assert(is_pane(windows, w, i));
        assert forall|v: int, j: int| #[trigger] is_pane(rest, v, j) implies rest[v].panes[j].id
            != windows[w].panes[i].id by {
            assert(is_pane(windows, if v < w { v } else { v + 1 }, j));
        }
    }
}

pub proof fn lemma_window_inserted(
    windows: Seq<WindowState>,
    at: int,
    window: WindowState,
    next: u64,
)
    requires
        panes_numbered(windows, next),
        0 <= at <= windows.len(),
        ids_distinct(window.panes),
        forall|i: int|
            0 <= i < window.panes.len() ==> (#[trigger] window.panes[i]).id < next && id_unused(
                windows,
                window.panes[i].id,
            ),
    ensures
        panes_numbered(windows.insert(at, window), next),
{
    let grown = windows.insert(at, window);
    assert forall|v: int, i: int| #[trigger] is_pane(grown, v, i) implies grown[v].panes[i].id
        < next by {
        if v == at {
            assert(window.panes[i].id < next);
        } else {
            assert(is_pane(windows, if v < at { v } else { v - 1 }, i));
        }
    }
    assert forall|a: int, i: int, b: int, j: int|
        #![trigger is_pane(grown, a, i), is_pane(grown, b, j)]
        is_pane(grown, a, i) && is_pane(grown, b, j) && grown[a].panes[i].id
            == grown[b].panes[j].id implies a == b && i == j by {
        if a == at && b == at {
            assert(window.panes[i].id == window.panes[j].id);
        } else if a == at {
            assert(id_unused(windows, window.panes[i].id));
            assert(is_pane(windows, if b < at { b } else { b - 1 }, j));
        } else if b == at {
            assert(id_unused(windows, window.panes[j].id));
            assert(is_pane(windows, if a < at { a } else { a - 1 }, i));
        } else {
            assert(is_pane(windows, if a < at { a } else { a - 1 }, i));
            assert(is_pane(windows, if b < at { b } else { b - 1 }, j));
        }
    }
}

/// The active window changes, with no new panes.
pub proof fn lemma_current_changed(state: RmuxState, after: WindowState)
    requires
        state.sound(),
        kept(after, state.next_pane_id as nat),
        after.id == state.current().id,
        ids_distinct(after.panes),
        forall|i: int|
            0 <= i < after.panes.len() ==> id_among(
                state.current().panes,
                (#[trigger] after.panes[i]).id,
            ),
    ensures
        state.with_current(after).sound(),
{
    lemma_replaced(
        state.session.windows,
        state.session.active as int,
        after,
        Set::empty(),
        state.next_pane_id,
        state.next_pane_id,
    );
}

/// The active window changes, and one of its panes may be new.
pub proof fn lemma_current_grown(state: RmuxState, after: WindowState, id: u64)
    requires
        state.sound(),
        id < state.next_pane_id,
        id_unused(state.session.windows, id),
        kept(after, state.next_pane_id as nat),
        after.id == state.current().id,
        ids_distinct(after.panes),
        forall|i: int|
            0 <= i < after.panes.len() ==> id_among(
                state.current().panes,
                (#[trigger] after.panes[i]).id,
            ) || after.panes[i].id == id,
    ensures
        state.with_current(after).sound(),
{
    lemma_replaced(
        state.session.windows,
        state.session.active as int,
        after,
        Set::empty().insert(id),
        state.next_pane_id,
        state.next_pane_id,
    );
}

/// The same panes, with the same ids in the same order, serve another window.
pub proof fn lemma_same_ids(state: RmuxState, after: Seq<Pane>)
    requires
        state.sound(),
        after.len() == state.current().panes.len(),
        forall|i: int|
            0 <= i < after.len() ==> (#[trigger] after[i]).id == state.current().panes[i].id,
    ensures
        ids_distinct(after),
        forall|i: int|
            0 <= i < after.len() ==> id_among(
                state.current().panes,
                (#[trigger] after[i]).id,
            ),
{
    let panes = state.current().panes;
    lemma_window_numbered(
        state.session.windows,
        state.session.active as int,
        state.next_pane_id,
    );
    assert forall|i: int, j: int|
        #![trigger after[i], after[j]]
        0 <= i < after.len() && 0 <= j < after.len() && after[i].id == after[j].id implies i
        == j by {
        assert(panes[i].id == panes[j].id);
    }
    assert forall|i: int| 0 <= i < after.len() implies id_among(
        panes,
        (#[trigger] after[i]).id,
    ) by {
        assert(panes[i].id == after[i].id);
    }
}

/// A session is sound where the multiplexer is.
pub proof fn lemma_session_sound(state: RmuxState)
    requires
        state.sound(),
    ensures
        state.session.sound(),
        state.current().sound(),
        state.current().panes.len() <= state.next_pane_id,
{
    lemma_window_numbered(
        state.session.windows,
        state.session.active as int,
        state.next_pane_id,
    );
    assert(kept(state.session.windows[state.session.active as int], state.next_pane_id as nat));
    assert forall|i: int| 0 <= i < state.session.windows.len() implies (
    #[trigger] state.session.windows[i]).sound() by {
        assert(kept(state.session.windows[i], state.next_pane_id as nat));
    }
}

/// A change that leaves the panes and the layout of the active window alone.
pub proof fn lemma_current_touched(state: RmuxState, after: WindowState)
    requires
        state.sound(),
        after.id == state.current().id,
        after.panes == state.current().panes,
        after.layout == state.current().layout,
        after.weights.len() == after.panes.len(),
        after.panes.len() > 0 ==> after.active < after.panes.len(),
    ensures
        state.with_current(after).sound(),
{
    lemma_session_sound(state);
    assert(kept(state.current(), state.next_pane_id as nat));
    lemma_same_ids(state, after.panes);
    lemma_current_changed(state, after);
}

pub proof fn lemma_split_requested(state: RmuxState, axis: SplitAxis)
    requires
        state.sound(),
        state.has_pane_id(),
        state.current().panes.len() > 0,
    ensures
        ({
            let numbered = RmuxState {
                next_pane_id: (state.next_pane_id + 1) as u64,
                ..state
            };
            &&& numbered.sound()
            &&& numbered.with_current(state.current().split_begun(axis)).sound()
            &&& id_unused(state.session.windows, state.next_pane_id)
            &&& id_unused(
                numbered.with_current(state.current().split_begun(axis)).session.windows,
                state.next_pane_id,
            )
        }),
{
    lemma_session_sound(state);
    let numbered = RmuxState { next_pane_id: (state.next_pane_id + 1) as u64, ..state };
    lemma_numbered_up(state);
    let after = state.current().split_begun(axis);
    assert(kept(state.current(), state.next_pane_id as nat));
    crate::window_laws::lemma_split_begun(state.current(), axis, state.next_pane_id as nat);
    lemma_same_ids(numbered, after.panes);
    lemma_current_changed(numbered, after);
    let changed = numbered.with_current(after).session.windows;
    assert forall|w: int, i: int| #[trigger]
        is_pane(changed, w, i) implies changed[w].panes[i].id != state.next_pane_id by {
        assert(is_pane(state.session.windows, w, i));
    }
}

/// Another pane id is given out.
pub proof fn lemma_numbered_up(state: RmuxState)
    requires
        state.sound(),
        state.has_pane_id(),
    ensures
        (RmuxState { next_pane_id: (state.next_pane_id + 1) as u64, ..state }).sound(),
        id_unused(state.session.windows, state.next_pane_id),
{
    let numbered = RmuxState { next_pane_id: (state.next_pane_id + 1) as u64, ..state };
    assert forall|w: int| 0 <= w < state.session.windows.len() implies kept(
        #[trigger] state.session.windows[w],
        numbered.next_pane_id as nat,
    ) by {
        assert(kept(state.session.windows[w], state.next_pane_id as nat));
    }
}

proof fn lemma_ids_inserted(panes: Seq<Pane>, at: int, pane: Pane)
    requires
        ids_distinct(panes),
        !id_among(panes, pane.id),
        0 <= at <= panes.len(),
    ensures
        ids_distinct(panes.insert(at, pane)),
        forall|i: int|
            0 <= i < panes.len() + 1 ==> id_among(
                panes,
                (#[trigger] panes.insert(at, pane)[i]).id,
            ) || panes.insert(at, pane)[i].id == pane.id,
{
    let grown = panes.insert(at, pane);
    assert forall|i: int| 0 <= i < grown.len() implies id_among(panes, (#[trigger] grown[i]).id)
        || grown[i].id == pane.id by {
        if i < at {
            assert(grown[i] == panes[i]);
        } else if i > at {
            assert(grown[i] == panes[i - 1]);
        }
    }
    assert forall|i: int, j: int|
        #![trigger grown[i], grown[j]]
        0 <= i < grown.len() && 0 <= j < grown.len() && grown[i].id == grown[j].id implies i
        == j by {
        if i != at && j != at {
            let a = if i < at {
                i
            } else {
                i - 1
            };
            let b = if j < at {
                j
            } else {
                j - 1
            };
            assert(grown[i] == panes[a] && grown[j] == panes[b]);
        } else if i != j {
            let k = if i == at {
                j
            } else {
                i
            };
            let a = if k < at {
                k
            } else {
                k - 1
            };
            assert(grown[k] == panes[a]);
            assert(id_among(panes, pane.id));
        }
    }
}

proof fn lemma_unused_among(windows: Seq<WindowState>, w: int, id: u64)
    requires
        0 <= w < windows.len(),
        id_unused(windows, id),
    ensures
        !id_among(windows[w].panes, id),
{
    if id_among(windows[w].panes, id) {
        let i = choose|i: int|
            0 <= i < windows[w].panes.len() && (#[trigger] windows[w].panes[i]).id == id;
        assert(is_pane(windows, w, i));
    }
}

pub proof fn lemma_split_finished(
    state: RmuxState,
    axis: SplitAxis,
    at: usize,
    placed: bool,
    pane: Pane,
)
    requires
        state.sound(),
        at <= state.current().panes.len(),
        pane.id < state.next_pane_id,
        id_unused(state.session.windows, pane.id),
    ensures
        state.with_current(state.current().split_finished(axis, at, placed, pane)).sound(),
{
    let window = state.current();
    lemma_window_numbered(
        state.session.windows,
        state.session.active as int,
        state.next_pane_id,
    );
    lemma_unused_among(state.session.windows, state.session.active as int, pane.id);
    let grown = window.panes.insert(at as int, pane);
    lemma_ids_inserted(window.panes, at as int, pane);
    assert forall|i: int| 0 <= i < grown.len() implies (#[trigger] grown[i]).id
        < state.next_pane_id by {
        if id_among(window.panes, grown[i].id) {
            let j = choose|j: int|
                0 <= j < window.panes.len() && (#[trigger] window.panes[j]).id == grown[i].id;
        }
    }
    lemma_panes_counted(grown, state.next_pane_id);
    let unsettled = WindowState {
        panes: grown,
        active: at,
        layout: if placed {
            window.layout
        } else {
            crate::layout::even_layout(axis, 0, grown.len())
        },
        ..window
    };
    crate::window_laws::lemma_settled(unsettled, state.next_pane_id as nat);
    assert(unsettled.settled() == window.split_finished(axis, at, placed, pane));
    lemma_current_grown(state, unsettled.settled(), pane.id);
}

proof fn lemma_ids_removed(panes: Seq<Pane>, index: int)
    requires
        ids_distinct(panes),
        0 <= index < panes.len(),
    ensures
        ids_distinct(panes.remove(index)),
        !id_among(panes.remove(index), panes[index].id),
        forall|i: int|
            0 <= i < panes.len() - 1 ==> id_among(panes, (#[trigger] panes.remove(index)[i]).id),
{
    let rest = panes.remove(index);
    assert forall|i: int| 0 <= i < rest.len() implies #[trigger] rest[i] == panes[if i < index {
        i
    } else {
        i + 1
    }] by {}
    assert forall|i: int| 0 <= i < rest.len() implies id_among(panes, (#[trigger] rest[i]).id) by {
        let j = if i < index {
            i
        } else {
            i + 1
        };
        assert(panes[j].id == rest[i].id);
    }
    assert forall|i: int, j: int|
        #![trigger rest[i], rest[j]]
        0 <= i < rest.len() && 0 <= j < rest.len() && rest[i].id == rest[j].id implies i == j by {
        let a = if i < index {
            i
        } else {
            i + 1
        };
        let b = if j < index {
            j
        } else {
            j + 1
        };
        assert(panes[a].id == panes[b].id);
    }
    if id_among(rest, panes[index].id) {
        let i = choose|i: int|
            0 <= i < rest.len() && (#[trigger] rest[i]).id == panes[index].id;
        let a = if i < index {
            i
        } else {
            i + 1
        };
        assert(panes[a].id == panes[index].id);
    }
}

/// A window with a pane taken out of it is still kept.
pub proof fn lemma_pane_taken(window: WindowState, index: usize, limit: nat)
    requires
        window.sound(),
        index < window.panes.len() <= limit,
        limit < usize::MAX,
    ensures
        kept(window.pane_taken(index), limit),
{
    let panes = window.panes.remove(index as int);
    let unsettled = WindowState {
        panes,
        layout: window.layout.without(index).renumbered(crate::layout::Renumber::Remove(index)),
        active: crate::window::active_after_removal(window.active, index, panes.len()),
        ..window
    };
    crate::window_laws::lemma_settled(unsettled, limit);
    assert(unsettled.settled() == window.pane_taken(index));
}

/// One of the windows loses a pane.
pub proof fn lemma_window_lost_pane(state: RmuxState, w: usize, index: usize)
    requires
        state.sound(),
        w < state.session.windows.len(),
        index < state.session.windows[w as int].panes.len(),
    ensures
        ({
            let window = state.session.windows[w as int];
            let changed = state.session.windows.update(w as int, window.pane_taken(index));
            &&& (RmuxState {
                session: SessionState { windows: changed, ..state.session },
                ..state
            }).sound()
            &&& id_unused(changed, window.panes[index as int].id)
        }),
{
    let windows = state.session.windows;
    let window = windows[w as int];
    let after = window.pane_taken(index);
    lemma_window_numbered(windows, w as int, state.next_pane_id);
    assert(kept(window, state.next_pane_id as nat));
    lemma_pane_taken(window, index, state.next_pane_id as nat);
    lemma_ids_removed(window.panes, index as int);
    lemma_replaced(
        windows,
        w as int,
        after,
        Set::empty(),
        state.next_pane_id,
        state.next_pane_id,
    );
    let changed = windows.update(w as int, after);
    let id = window.panes[index as int].id;
    assert(is_pane(windows, w as int, index as int));
    assert forall|v: int, i: int| #[trigger] is_pane(changed, v, i) implies changed[v].panes[i].id
        != id by {
        if v == w {
            if after.panes[i].id == id {
                assert(id_among(window.panes.remove(index as int), id));
            }
        } else {
            assert(is_pane(windows, v, i));
        }
    }
}

pub proof fn lemma_current_lost_pane(state: RmuxState, index: usize)
    requires
        state.sound(),
        index < state.current().panes.len(),
    ensures
        state.with_current(state.current().pane_taken(index)).sound(),
        id_unused(
            state.with_current(state.current().pane_taken(index)).session.windows,
            state.current().panes[index as int].id,
        ),
{
    lemma_window_lost_pane(state, state.session.active, index);
}

/// A pane comes into the active window that no window has.
pub proof fn lemma_pane_pushed(state: RmuxState, pane: Pane)
    requires
        state.sound(),
        pane.id < state.next_pane_id,
        id_unused(state.session.windows, pane.id),
    ensures
        state.with_current(state.current().pane_pushed(pane)).sound(),
{
    let window = state.current();
    lemma_window_numbered(
        state.session.windows,
        state.session.active as int,
        state.next_pane_id,
    );
    lemma_unused_among(state.session.windows, state.session.active as int, pane.id);
    let count = window.panes.len() as int;
    let grown = window.panes.push(pane);
    assert(grown =~= window.panes.insert(count, pane));
    lemma_ids_inserted(window.panes, count, pane);
    assert forall|i: int| 0 <= i < grown.len() implies (#[trigger] grown[i]).id
        < state.next_pane_id by {}
    lemma_panes_counted(grown, state.next_pane_id);
    let last = window.panes.len() as usize;
    let unsettled = WindowState {
        panes: grown,
        layout: if window.layout.has(window.active) {
            window.layout.split_at(window.active, SplitAxis::Horizontal, last)
        } else {
            crate::layout::even_layout(SplitAxis::Horizontal, 0, grown.len())
        },
        active: last,
        ..window
    };
    crate::window_laws::lemma_settled(unsettled, state.next_pane_id as nat);
    assert(unsettled.settled() == window.pane_pushed(pane));
    lemma_current_grown(state, unsettled.settled(), pane.id);
}

pub proof fn lemma_others_killed(state: RmuxState)
    requires
        state.sound(),
        state.current().panes.len() > 0,
    ensures
        state.with_current(state.current().others_killed()).sound(),
{
    lemma_session_sound(state);
    let window = state.current();
    let after = window.others_killed();
    crate::window_laws::law_single_pane_tiles_window(window, window.panes[0]);
    crate::window_laws::lemma_single_bounded(state.next_pane_id as nat);
    assert(after.panes[0] == window.panes[window.active as int]);
    lemma_current_changed(state, after);
}

pub proof fn lemma_emptied(state: RmuxState)
    requires
        state.sound(),
    ensures
        state.with_current(state.current().emptied()).sound(),
{
    lemma_session_sound(state);
    assert(kept(state.current(), state.next_pane_id as nat));
    lemma_current_changed(state, state.current().emptied());
}

pub proof fn lemma_restarted(state: RmuxState, pane: Pane)
    requires
        state.sound(),
        pane.id < state.next_pane_id,
        id_unused(state.session.windows, pane.id),
    ensures
        state.with_current(state.current().restarted(pane)).sound(),
{
    let window = state.current();
    crate::window_laws::law_single_pane_tiles_window(window, pane);
    crate::window_laws::lemma_single_bounded(state.next_pane_id as nat);
    lemma_current_grown(state, window.restarted(pane), pane.id);
}

pub proof fn lemma_laid_out_evenly(state: RmuxState, axis: SplitAxis)
    requires
        state.sound(),
    ensures
        state.with_current(state.current().laid_out_evenly(axis)).sound(),
{
    lemma_session_sound(state);
    let window = state.current();
    let after = window.laid_out_evenly(axis);
    let count = window.panes.len();
    if count >= 1 {
        crate::layout_laws::law_even_layout_maps_panes(axis, count);
        crate::layout_laws::lemma_matches_panes(
            crate::layout::even_layout(axis, 0, count),
            count,
        );
    } else {
        crate::window_laws::lemma_single_bounded(state.next_pane_id as nat);
    }
    lemma_same_ids(state, after.panes);
    lemma_current_changed(state, after);
}

pub proof fn lemma_pane_resized(state: RmuxState, direction: ResizeDirection, amount: u16)
    requires
        state.sound(),
    ensures
        state.pane_resized(direction, amount).0.sound(),
{
    lemma_session_sound(state);
    let window = state.current();
    assert(kept(window, state.next_pane_id as nat));
    crate::layout_laws::law_resizing_keeps_panes(window.layout, window.active, direction, amount);
    match window.active_resized(direction, amount) {
        Some(resized) => {
            lemma_same_leaves_bounded(window.layout, resized.layout, state.next_pane_id as nat);
            lemma_same_ids(state, resized.panes);
            lemma_current_changed(state, resized);
        },
        None => {
            lemma_current_touched(state, window.synced());
        },
    }
}

proof fn lemma_same_leaves_bounded(a: PaneLayout, b: PaneLayout, limit: nat)
    requires
        a.leaves() == b.leaves(),
        bounded(a, limit),
    ensures
        bounded(b, limit),
{
    reveal(PaneLayout::has);
    assert forall|i: usize| #[trigger] b.has(i) implies i < limit by {
        assert(a.has(i));
    }
}

pub proof fn lemma_pane_swapped(state: RmuxState, direction: SwapDirection)
    requires
        state.sound(),
    ensures
        state.pane_swapped(direction).0.sound(),
{
    lemma_session_sound(state);
    let window = state.current();
    if window.panes.len() > 0 {
        if let Some(other) = window.neighbor(direction) {
            let after = window.panes_swapped(other);
            let panes = window.panes;
            let active = window.active as int;
            lemma_window_numbered(
                state.session.windows,
                state.session.active as int,
                state.next_pane_id,
            );
            assert(kept(window, state.next_pane_id as nat));
            assert forall|i: int, j: int|
                #![trigger after.panes[i], after.panes[j]]
                0 <= i < after.panes.len() && 0 <= j < after.panes.len() && after.panes[i].id
                    == after.panes[j].id implies i == j by {
                let a = swapped_index(i, active, other as int);
                let b = swapped_index(j, active, other as int);
                assert(after.panes[i] == panes[a] && after.panes[j] == panes[b]);
            }
            assert forall|i: int| 0 <= i < after.panes.len() implies id_among(
                panes,
                (#[trigger] after.panes[i]).id,
            ) by {
                assert(after.panes[i] == panes[swapped_index(i, active, other as int)]);
            }
            lemma_current_changed(state, after);
        }
    }
}

spec fn swapped_index(i: int, a: int, b: int) -> int {
    if i == a {
        b
    } else if i == b {
        a
    } else {
        i
    }
}

/// A window comes into the session, and becomes active.
pub proof fn lemma_window_pushed(state: RmuxState, window: WindowState)
    requires
        state.sound(),
        window.id < state.next_window_id,
        forall|w: int|
            0 <= w < state.session.windows.len() ==> (#[trigger] state.session.windows[w]).id
                != window.id,
        kept(window, state.next_pane_id as nat),
        ids_distinct(window.panes),
        forall|i: int|
            0 <= i < window.panes.len() ==> (#[trigger] window.panes[i]).id < state.next_pane_id
                && id_unused(state.session.windows, window.panes[i].id),
        state.session.windows.len() < usize::MAX,
    ensures
        (RmuxState { session: state.session.window_pushed(window), ..state }).sound(),
{
    let windows = state.session.windows;
    lemma_window_inserted(windows, windows.len() as int, window, state.next_pane_id);
    assert(windows.push(window) =~= windows.insert(windows.len() as int, window));
}

pub proof fn lemma_single_window(id: u64, name: Seq<char>, pane: Pane, weight: u16, limit: nat)
    requires
        limit >= 1,
    ensures
        kept(window_of(id, name, pane, weight), limit),
        ids_distinct(window_of(id, name, pane, weight).panes),
{
    crate::window_laws::law_single_pane_tiles_window(window_of(id, name, pane, weight), pane);
    crate::window_laws::lemma_single_bounded(limit);
}

pub proof fn lemma_window_killed(state: RmuxState, index: usize)
    requires
        state.sound(),
        index < state.session.windows.len(),
        state.session.windows.len() > 1,
    ensures
        (RmuxState { session: state.session.window_killed(index), ..state }).sound(),
{
    let windows = state.session.windows;
    lemma_window_removed(windows, index as int, state.next_pane_id);
    lemma_rest_of_windows(state, index);
}

/// Taking a window out leaves the others as they are.
proof fn lemma_rest_of_windows(state: RmuxState, index: usize)
    requires
        state.sound(),
        index < state.session.windows.len(),
    ensures
        windows_kept(state.session.windows.remove(index as int), state.next_pane_id as nat),
        windows_numbered(state.session.windows.remove(index as int), state.next_window_id),
{
    let windows = state.session.windows;
    let rest = windows.remove(index as int);
    assert forall|w: int| 0 <= w < rest.len() implies #[trigger] rest[w] == windows[if w < index {
        w
    } else {
        w + 1
    }] by {}
    assert forall|w: int, v: int|
        #![trigger rest[w], rest[v]]
        0 <= w < rest.len() && 0 <= v < rest.len() && rest[w].id == rest[v].id implies w == v by {
        let a = if w < index {
            w
        } else {
            w + 1
        };
        let b = if v < index {
            v
        } else {
            v + 1
        };
        assert(windows[a].id == windows[b].id);
    }
}

/// The windows change places.
proof fn lemma_windows_reordered(state: RmuxState, from: usize, to: usize)
    requires
        state.sound(),
        from < state.session.windows.len(),
        to < state.session.windows.len(),
    ensures
        ({
            let windows = state.session.windows;
            let moved = windows.remove(from as int).insert(to as int, windows[from as int]);
            &&& panes_numbered(moved, state.next_pane_id)
            &&& windows_numbered(moved, state.next_window_id)
            &&& windows_kept(moved, state.next_pane_id as nat)
        }),
{
    let windows = state.session.windows;
    let window = windows[from as int];
    let rest = windows.remove(from as int);
    lemma_window_removed(windows, from as int, state.next_pane_id);
    lemma_rest_of_windows(state, from);
    lemma_window_numbered(windows, from as int, state.next_pane_id);
    lemma_window_inserted(rest, to as int, window, state.next_pane_id);
    let moved = rest.insert(to as int, window);
    assert forall|w: int| 0 <= w < rest.len() implies (#[trigger] rest[w]).id != window.id by {
        let a = if w < from {
            w
        } else {
            w + 1
        };
        assert(windows[a] == rest[w]);
    }
    assert forall|w: int, v: int|
        #![trigger moved[w], moved[v]]
        0 <= w < moved.len() && 0 <= v < moved.len() && moved[w].id == moved[v].id implies w
        == v by {
        if w != to && v != to {
            let a = if w < to {
                w
            } else {
                w - 1
            };
            let b = if v < to {
                v
            } else {
                v - 1
            };
            assert(rest[a].id == rest[b].id);
        } else if w != v {
            let k = if w == to {
                v
            } else {
                w
            };
            let a = if k < to {
                k
            } else {
                k - 1
            };
            assert(rest[a].id == window.id);
        }
    }
    assert forall|w: int| 0 <= w < moved.len() implies (#[trigger] moved[w]).id
        < state.next_window_id && kept(moved[w], state.next_pane_id as nat) by {
        if w != to {
            let a = if w < to {
                w
            } else {
                w - 1
            };
            assert(moved[w] == rest[a]);
            assert(kept(rest[a], state.next_pane_id as nat));
        } else {
            assert(kept(windows[from as int], state.next_pane_id as nat));
        }
    }
}

pub proof fn lemma_window_moved(state: RmuxState, index: usize)
    requires
        state.sound(),
        index < state.session.windows.len(),
    ensures
        (RmuxState { session: state.session.window_moved(index), ..state }).sound(),
{
    lemma_windows_reordered(state, state.session.active, index);
}

pub proof fn lemma_windows_swapped(state: RmuxState, direction: SwapDirection)
    requires
        state.sound(),
    ensures
        match state.session.neighbor(direction) {
            Some(other) => (RmuxState {
                session: state.session.windows_swapped(other),
                ..state
            }).sound(),
            None => true,
        },
{
    if let Some(other) = state.session.neighbor(direction) {
        let windows = state.session.windows;
        let active = state.session.active;
        lemma_windows_reordered(state, active, other);
        assert(windows.remove(active as int).insert(other as int, windows[active as int])
            =~= crate::window::exchanged(windows, active as int, other as int));
    }
}

pub proof fn lemma_pane_joined(state: RmuxState, source_window: usize, source_pane: usize)
    requires
        state.sound(),
        state.session.can_join(source_window, source_pane),
    ensures
        (RmuxState {
            session: state.session.pane_joined(source_window, source_pane),
            ..state
        }).sound(),
{
    let windows = state.session.windows;
    let source = windows[source_window as int];
    let pane = source.panes[source_pane as int];
    let parted = RmuxState {
        session: state.session.pane_parted(source_window, source_pane),
        ..state
    };
    assert(is_pane(windows, source_window as int, source_pane as int));
    if source.panes.len() == 1 {
        lemma_window_removed(windows, source_window as int, state.next_pane_id);
        lemma_rest_of_windows(state, source_window);
    } else {
        lemma_window_lost_pane(state, source_window, source_pane);
    }
    lemma_pane_pushed(parted, pane);
}

pub proof fn lemma_pane_broken(state: RmuxState, name: Option<Seq<char>>)
    requires
        state.sound(),
        state.next_window_id < u64::MAX,
        state.current().panes.len() > 1,
        state.session.windows.len() < usize::MAX,
    ensures
        state.pane_broken(name).sound(),
{
    lemma_session_sound(state);
    let window = state.current();
    let active = window.active;
    let pane = window.panes[active as int];
    assert(is_pane(state.session.windows, state.session.active as int, active as int));
    lemma_current_lost_pane(state, active);
    let parted = RmuxState {
        next_window_id: (state.next_window_id + 1) as u64,
        ..state.with_current(window.pane_taken(active))
    };
    let name = match name {
        Some(name) => name,
        None => crate::window::default_window_name(state.next_window_id),
    };
    let weight = window.weights[active as int];
    let broken = window_of(state.next_window_id, name, pane, weight);
    lemma_single_window(
        state.next_window_id,
        name,
        pane,
        weight,
        state.next_pane_id as nat,
    );
    assert(parted.sound());
    lemma_window_pushed(parted, broken);
}

pub proof fn lemma_exited_closed(state: RmuxState, window: usize, pane: usize)
    requires
        state.sound(),
    ensures
        state.exited_closed(window, pane).sound(),
{
    let windows = state.session.windows;
    if window >= windows.len() || pane >= windows[window as int].panes.len() {
    } else if windows[window as int].panes.len() > 1 {
        lemma_window_lost_pane(state, window, pane);
    } else if windows.len() > 1 {
        lemma_window_killed(state, window);
    }
}

} // verus!
