//! What holds of the multiplexer over several requests.

use vstd::prelude::*;

#[allow(unused_imports)]
use crate::error::Error;
#[allow(unused_imports)]
use crate::geometry::Rect;
#[allow(unused_imports)]
use crate::keys::{KeyCode, KeyEvent};
#[allow(unused_imports)]
use crate::protocol::{BoundCommand, ResizeDirection, RmuxCommand, SplitAxis, SwapDirection};
#[allow(unused_imports)]
use crate::session::SessionState;
#[allow(unused_imports)]
use crate::soundness::id_unused;
#[allow(unused_imports)]
use crate::state::{
    comes_before, has_pane, in_order, is_pane, put_in_order, rect_at, EffectState, ExitReason,
    RmuxState, Step,
};
#[allow(unused_imports)]
use crate::window::{Pane, WindowState};

verus! {

/// The prefix key and then the prefix key again types it, and changes nothing.
pub proof fn law_prefix_twice_types_it(state: RmuxState, key: KeyEvent)
    requires
        !state.prefix,
        crate::keys::sends_byte(key, state.session.prefix_key),
    ensures
        state.key_handled(key).1 == Ok::<EffectState, Error>(EffectState::Nothing),
        state.key_handled(key).0.key_handled(key) == (
            state,
            Ok::<EffectState, Error>(state.typed(seq![state.session.prefix_key])),
        ),
{
}

/// The prefix key and then a key that was bound runs the command that it was
/// bound to.
pub proof fn law_bound_key_runs_command(
    state: RmuxState,
    prefix: KeyEvent,
    key: KeyEvent,
    command: BoundCommand,
)
    requires
        !state.prefix,
        crate::keys::sends_byte(prefix, state.session.prefix_key),
        key.code is Char,
        key.modifiers.empty(),
        !crate::keys::sends_byte(key, state.session.prefix_key),
    ensures
        ({
            let bound = state.command_applied(
                RmuxCommand::BindKey { key: key.code->Char_0, command },
            ).0;
            bound.key_handled(prefix).0.key_handled(key) == bound.bound_run(command)
        }),
{
    crate::session_laws::law_bound_key_is_found(
        state.session.bindings,
        key.code->Char_0,
        command,
        key.code->Char_0,
    );
}

/// Whether places stand in order, each of them once.
pub open spec fn ordered(places: Seq<(usize, usize)>) -> bool {
    forall|i: int, j: int|
        #![trigger places[i], places[j]]
        0 <= i < j < places.len() ==> comes_before(places[i], places[j])
}

proof fn lemma_put_in_order(places: Seq<(usize, usize)>, place: (usize, usize))
    requires
        ordered(places),
    ensures
        ordered(put_in_order(places, place)),
        forall|other: (usize, usize)| #[trigger]
            put_in_order(places, place).contains(other) <==> places.contains(other) || other
                == place,
    decreases places.len(),
{
    let put = put_in_order(places, place);
    if places.len() == 0 || comes_before(place, places[0]) {
        assert forall|i: int, j: int|
            #![trigger put[i], put[j]]
            0 <= i < j < put.len() implies comes_before(put[i], put[j]) by {
            if i == 0 {
                if j > 1 {
                    assert(comes_before(places[0], places[j - 1]));
                }
            } else {
                assert(comes_before(places[i - 1], places[j - 1]));
            }
        }
        assert forall|other: (usize, usize)| #[trigger]
            put.contains(other) <==> places.contains(other) || other == place by {
            if places.contains(other) {
                let i = choose|i: int| 0 <= i < places.len() && places[i] == other;
                assert(put[i + 1] == other);
            }
            assert(put[0] == place);
            if put.contains(other) {
                let i = choose|i: int| 0 <= i < put.len() && put[i] == other;
                if i > 0 {
                    assert(places[i - 1] == other);
                }
            }
        }
    } else if places[0] == place {
    } else {
        let rest = places.skip(1);
        assert forall|i: int, j: int|
            #![trigger rest[i], rest[j]]
            0 <= i < j < rest.len() implies comes_before(rest[i], rest[j]) by {
            assert(comes_before(places[i + 1], places[j + 1]));
        }
        lemma_put_in_order(rest, place);
        let tail = put_in_order(rest, place);
        assert forall|i: int, j: int|
            #![trigger put[i], put[j]]
            0 <= i < j < put.len() implies comes_before(put[i], put[j]) by {
            if i == 0 {
                assert(tail.contains(tail[j - 1]));
                if rest.contains(tail[j - 1]) {
                    let k = choose|k: int| 0 <= k < rest.len() && rest[k] == tail[j - 1];
                    assert(comes_before(places[0], places[k + 1]));
                }
            } else {
                assert(comes_before(tail[i - 1], tail[j - 1]));
            }
        }
        assert forall|other: (usize, usize)| #[trigger]
            put.contains(other) <==> places.contains(other) || other == place by {
            assert(put[0] == places[0]);
            if places.contains(other) {
                let i = choose|i: int| 0 <= i < places.len() && places[i] == other;
                if i > 0 {
                    assert(rest[i - 1] == other);
                    assert(rest.contains(other));
                    assert(tail.contains(other));
                    let j = choose|j: int| 0 <= j < tail.len() && tail[j] == other;
                    assert(put[j + 1] == other);
                }
            }
            if other == place {
                assert(tail.contains(other));
                let j = choose|j: int| 0 <= j < tail.len() && tail[j] == other;
                assert(put[j + 1] == other);
            }
            if put.contains(other) {
                let i = choose|i: int| 0 <= i < put.len() && put[i] == other;
                if i > 0 {
                    assert(tail[i - 1] == other);
                    assert(tail.contains(other));
                    if rest.contains(other) {
                        let k = choose|k: int| 0 <= k < rest.len() && rest[k] == other;
                        assert(places[k + 1] == other);
                    }
                }
            }
        }
    }
}

/// Putting places in order keeps them all, and no place comes twice.
pub proof fn law_places_in_order(places: Seq<(usize, usize)>)
    ensures
        ordered(in_order(places)),
        forall|place: (usize, usize)| #[trigger]
            in_order(places).contains(place) <==> places.contains(place),
    decreases places.len(),
{
    if places.len() > 0 {
        let before = places.drop_last();
        law_places_in_order(before);
        lemma_put_in_order(in_order(before), places.last());
        assert forall|place: (usize, usize)| #[trigger]
            in_order(places).contains(place) <==> places.contains(place) by {
            if places.contains(place) {
                let i = choose|i: int| 0 <= i < places.len() && places[i] == place;
                if i < places.len() - 1 {
                    assert(before[i] == place);
                }
            }
            if before.contains(place) {
                let i = choose|i: int| 0 <= i < before.len() && before[i] == place;
                assert(places[i] == place);
            }
        }
    } else {
        assert(in_order(places) =~= places);
    }
}

/// Whether the pane with one id comes before the pane with another.
pub open spec fn precedes(windows: Seq<WindowState>, x: u64, y: u64) -> bool {
    exists|a: int, i: int, b: int, j: int|
        #![trigger is_pane(windows, a, i), is_pane(windows, b, j)]
        is_pane(windows, a, i) && is_pane(windows, b, j) && windows[a].panes[i].id == x
            && windows[b].panes[j].id == y && (a < b || a == b && i < j)
}

/// Whether panes stand in the order in which they stood before.
pub open spec fn order_kept(before: Seq<WindowState>, after: Seq<WindowState>) -> bool {
    forall|x: u64, y: u64|
        has_pane(after, x) && has_pane(after, y) ==> (#[trigger] precedes(after, x, y)
            <==> precedes(before, x, y))
}

/// Whether every window has a pane.
pub open spec fn none_empty(windows: Seq<WindowState>) -> bool {
    forall|w: int| 0 <= w < windows.len() ==> (#[trigger] windows[w]).panes.len() > 0
}

/// Whether there is a pane elsewhere than at some places.
pub open spec fn pane_left(windows: Seq<WindowState>, places: Seq<(usize, usize)>) -> bool {
    exists|w: usize, i: usize| #[trigger]
        is_pane(windows, w as int, i as int) && !places.contains((w, i))
}

/// Panes keep their order where each comes from a place that `from` names, and
/// `from` keeps the order of places.
proof fn lemma_order_kept(
    before: Seq<WindowState>,
    after: Seq<WindowState>,
    next: u64,
    from: spec_fn(int, int) -> (int, int),
)
    requires
        crate::soundness::panes_numbered(before, next),
        forall|a: int, i: int| #[trigger]
            is_pane(after, a, i) ==> is_pane(before, from(a, i).0, from(a, i).1)
                && before[from(a, i).0].panes[from(a, i).1].id == after[a].panes[i].id,
        forall|a: int, i: int, b: int, j: int|
            #![trigger is_pane(after, a, i), is_pane(after, b, j)]
            is_pane(after, a, i) && is_pane(after, b, j) && (a < b || a == b && i < j) ==> {
                let p = from(a, i);
                let q = from(b, j);
                p.0 < q.0 || p.0 == q.0 && p.1 < q.1
            },
    ensures
        order_kept(before, after),
{
    assert forall|x: u64, y: u64| has_pane(after, x) && has_pane(after, y) implies (
    #[trigger] precedes(after, x, y) <==> precedes(before, x, y)) by {
        let (a, i) = choose|a: int, i: int| #[trigger]
            is_pane(after, a, i) && after[a].panes[i].id == x;
        let (b, j) = choose|b: int, j: int| #[trigger]
            is_pane(after, b, j) && after[b].panes[j].id == y;
        let p = from(a, i);
        let q = from(b, j);
        assert(is_pane(before, p.0, p.1) && is_pane(before, q.0, q.1));
        if precedes(after, x, y) {
            let (c, k, d, l) = choose|c: int, k: int, d: int, l: int|
                #![trigger is_pane(after, c, k), is_pane(after, d, l)]
                is_pane(after, c, k) && is_pane(after, d, l) && after[c].panes[k].id == x
                    && after[d].panes[l].id == y && (c < d || c == d && k < l);
            let r = from(c, k);
            let t = from(d, l);
            assert(is_pane(before, r.0, r.1) && is_pane(before, t.0, t.1));
        }
        if precedes(before, x, y) {
            let (c, k, d, l) = choose|c: int, k: int, d: int, l: int|
                #![trigger is_pane(before, c, k), is_pane(before, d, l)]
                is_pane(before, c, k) && is_pane(before, d, l) && before[c].panes[k].id == x
                    && before[d].panes[l].id == y && (c < d || c == d && k < l);
            assert(c == p.0 && k == p.1 && d == q.0 && l == q.1);
            assert(a < b || a == b && i < j);
        }
    }
}

/// Closing one pane leaves the panes before it where they are, takes away no
/// other pane, keeps the order of the others, and takes its own away unless it
/// is the only one, with which the session ends.
proof fn lemma_one_closed(state: RmuxState, window: usize, pane: usize)
    requires
        state.sound(),
        is_pane(state.session.windows, window as int, pane as int),
    ensures
        ({
            let windows = state.session.windows;
            let closed = state.exited_closed(window, pane);
            let id = windows[window as int].panes[pane as int].id;
            let only = windows.len() == 1 && windows[window as int].panes.len() == 1;
            &&& forall|w: usize, i: usize| #[trigger]
                is_pane(windows, w as int, i as int) && comes_before((w, i), (window, pane))
                    ==> is_pane(closed.session.windows, w as int, i as int)
                    && closed.session.windows[w as int].panes[i as int].id
                    == windows[w as int].panes[i as int].id
            &&& forall|other: u64|
                other != id ==> (#[trigger] has_pane(closed.session.windows, other) <==> has_pane(
                    windows,
                    other,
                ))
            &&& only ==> closed == RmuxState { exit_reason: Some(ExitReason::Quit), ..state }
            &&& !only ==> !has_pane(closed.session.windows, id) && closed.exit_reason
                == state.exit_reason
            &&& order_kept(windows, closed.session.windows)
            &&& none_empty(windows) ==> none_empty(closed.session.windows)
        }),
{
    let windows = state.session.windows;
    let closed = state.exited_closed(window, pane);
    let after = closed.session.windows;
    let target = windows[window as int];
    let id = target.panes[pane as int].id;
    if target.panes.len() > 1 {
        crate::soundness::lemma_window_lost_pane(state, window, pane);
        let rest = target.panes.remove(pane as int);
        assert(after[window as int].panes == rest);
        let from = |w: int, i: int|
            (
                w,
                if w == window && i >= pane {
                    i + 1
                } else {
                    i
                },
            );
        assert forall|other: u64| other != id implies (#[trigger] has_pane(after, other)
            <==> has_pane(windows, other)) by {
            if has_pane(after, other) {
                let (w, i) = choose|w: int, i: int| #[trigger]
                    is_pane(after, w, i) && after[w].panes[i].id == other;
                let (v, j) = from(w, i);
                assert(is_pane(windows, v, j));
                assert(windows[v].panes[j].id == other);
            }
            if has_pane(windows, other) {
                let (w, i) = choose|w: int, i: int| #[trigger]
                    is_pane(windows, w, i) && windows[w].panes[i].id == other;
                let j = if w == window && i > pane {
                    i - 1
                } else {
                    i
                };
                assert(is_pane(after, w, j));
                assert(after[w].panes[j].id == other);
            }
        }
        if has_pane(after, id) {
            let (w, i) = choose|w: int, i: int| #[trigger]
                is_pane(after, w, i) && after[w].panes[i].id == id;
            assert(id_unused(after, id));
            assert(false);
        }
        lemma_order_kept(windows, after, state.next_pane_id, from);
    } else if windows.len() > 1 {
        crate::soundness::lemma_window_removed(windows, window as int, state.next_pane_id);
        assert(pane == 0);
        let from = |w: int, i: int|
            (
                if w < window {
                    w
                } else {
                    w + 1
                },
                i,
            );
        assert forall|other: u64| other != id implies (#[trigger] has_pane(after, other)
            <==> has_pane(windows, other)) by {
            if has_pane(after, other) {
                let (w, i) = choose|w: int, i: int| #[trigger]
                    is_pane(after, w, i) && after[w].panes[i].id == other;
                let (v, j) = from(w, i);
                assert(is_pane(windows, v, j));
                assert(windows[v].panes[j].id == other);
            }
            if has_pane(windows, other) {
                let (w, i) = choose|w: int, i: int| #[trigger]
                    is_pane(windows, w, i) && windows[w].panes[i].id == other;
                assert(w != window);
                let v = if w < window {
                    w
                } else {
                    w - 1
                };
                assert(is_pane(after, v, i));
                assert(after[v].panes[i].id == other);
            }
        }
        if has_pane(after, id) {
            let (w, i) = choose|w: int, i: int| #[trigger]
                is_pane(after, w, i) && after[w].panes[i].id == id;
            assert(id_unused(after, target.panes[0].id));
            assert(false);
        }
        lemma_order_kept(windows, after, state.next_pane_id, from);
    }
}

/// Whether there is a pane at each of some places.
pub open spec fn all_panes(windows: Seq<WindowState>, places: Seq<(usize, usize)>) -> bool {
    forall|k: int|
        0 <= k < places.len() ==> is_pane(
            windows,
            (#[trigger] places[k]).0 as int,
            places[k].1 as int,
        )
}

/// Once the last of some panes is closed, the others are where they were, and the
/// panes elsewhere are still elsewhere.
proof fn lemma_last_closed(state: RmuxState, exited: Seq<(usize, usize)>)
    requires
        state.sound(),
        ordered(exited),
        all_panes(state.session.windows, exited),
        exited.len() > 0,
    ensures
        ({
            let windows = state.session.windows;
            let closed = state.exited_closed(exited.last().0, exited.last().1);
            let rest = exited.drop_last();
            &&& closed.sound()
            &&& ordered(rest)
            &&& all_panes(closed.session.windows, rest)
            &&& forall|k: int|
                0 <= k < rest.len() ==> closed.session.windows[(
                #[trigger] rest[k]).0 as int].panes[rest[k].1 as int].id
                    == windows[exited[k].0 as int].panes[exited[k].1 as int].id
            &&& forall|w: usize, i: usize| #[trigger]
                is_pane(windows, w as int, i as int) && !exited.contains((w, i)) ==> exists|
                    v: usize,
                    j: usize,
                | #[trigger]
                    is_pane(closed.session.windows, v as int, j as int) && !rest.contains((v, j))
                        && closed.session.windows[v as int].panes[j as int].id
                        == windows[w as int].panes[i as int].id
        }),
{
    let windows = state.session.windows;
    let (window, pane) = exited.last();
    let rest = exited.drop_last();
    let closed = state.exited_closed(window, pane);
    let id = windows[window as int].panes[pane as int].id;
    assert(exited.last() == exited[exited.len() - 1]);
    crate::soundness::lemma_exited_closed(state, window, pane);
    lemma_one_closed(state, window, pane);
    assert forall|k: int| 0 <= k < rest.len() implies {
        &&& is_pane(closed.session.windows, (#[trigger] rest[k]).0 as int, rest[k].1 as int)
        &&& closed.session.windows[rest[k].0 as int].panes[rest[k].1 as int].id
            == windows[exited[k].0 as int].panes[exited[k].1 as int].id
    } by {
        assert(rest[k] == exited[k]);
        assert(comes_before(exited[k], exited[exited.len() - 1]));
        assert(is_pane(windows, exited[k].0 as int, exited[k].1 as int));
    }
    assert forall|w: usize, i: usize| #[trigger]
        is_pane(windows, w as int, i as int) && !exited.contains((w, i)) implies exists|
        v: usize,
        j: usize,
    | #[trigger]
        is_pane(closed.session.windows, v as int, j as int) && !rest.contains((v, j))
            && closed.session.windows[v as int].panes[j as int].id
            == windows[w as int].panes[i as int].id by {
        let other = windows[w as int].panes[i as int].id;
        assert(is_pane(windows, window as int, pane as int));
        assert(has_pane(windows, other));
        if other == id {
            assert(w == window && i == pane);
            assert(exited[exited.len() - 1] == (w, i));
        }
        assert(has_pane(closed.session.windows, other));
        let (v, j) = choose|v: int, j: int| #[trigger]
            is_pane(closed.session.windows, v, j) && closed.session.windows[v].panes[j].id
                == other;
        crate::soundness::lemma_window_numbered(closed.session.windows, v, closed.next_pane_id);
        if rest.contains((v as usize, j as usize)) {
            let k = choose|k: int| 0 <= k < rest.len() && rest[k] == (v as usize, j as usize);
            assert(closed.session.windows[rest[k].0 as int].panes[rest[k].1 as int].id
                == windows[exited[k].0 as int].panes[exited[k].1 as int].id);
            assert(is_pane(windows, exited[k].0 as int, exited[k].1 as int));
            assert(w == exited[k].0 && i == exited[k].1);
            assert(exited.contains((w, i)));
        }
        assert(is_pane(closed.session.windows, v as usize as int, j as usize as int));
    }
}

proof fn lemma_others_stay(state: RmuxState, exited: Seq<(usize, usize)>)
    requires
        state.sound(),
        ordered(exited),
        all_panes(state.session.windows, exited),
    ensures
        ({
            let windows = state.session.windows;
            let after = state.all_exited_closed(exited);
            &&& forall|w: usize, i: usize| #[trigger]
                is_pane(windows, w as int, i as int) && !exited.contains((w, i)) ==> has_pane(
                    after.session.windows,
                    windows[w as int].panes[i as int].id,
                )
            &&& forall|id: u64| #[trigger]
                has_pane(after.session.windows, id) ==> has_pane(windows, id)
            &&& order_kept(windows, after.session.windows)
        }),
    decreases exited.len(),
{
    let windows = state.session.windows;
    if exited.len() == 0 {
        assert forall|w: usize, i: usize| #[trigger]
            is_pane(windows, w as int, i as int) && !exited.contains((w, i)) implies has_pane(
            windows,
            windows[w as int].panes[i as int].id,
        ) by {
            assert(is_pane(windows, w as int, i as int));
        }
    } else {
        let (window, pane) = exited.last();
        let closed = state.exited_closed(window, pane);
        assert(exited.last() == exited[exited.len() - 1]);
        lemma_one_closed(state, window, pane);
        lemma_last_closed(state, exited);
        lemma_others_stay(closed, exited.drop_last());
        let after = state.all_exited_closed(exited);
        assert forall|id: u64| #[trigger] has_pane(after.session.windows, id) implies has_pane(
            windows,
            id,
        ) by {
            assert(has_pane(closed.session.windows, id));
            assert(is_pane(windows, window as int, pane as int));
        }
        assert forall|x: u64, y: u64|
            has_pane(after.session.windows, x) && has_pane(after.session.windows, y) implies (
        #[trigger] precedes(after.session.windows, x, y) <==> precedes(windows, x, y)) by {
            assert(has_pane(closed.session.windows, x) && has_pane(closed.session.windows, y));
            assert(precedes(closed.session.windows, x, y) <==> precedes(windows, x, y));
        }
    }
}

#[verifier::spinoff_prover]
#[verifier::rlimit(40)]
proof fn lemma_ended_go(state: RmuxState, exited: Seq<(usize, usize)>)
    requires
        state.sound(),
        ordered(exited),
        all_panes(state.session.windows, exited),
    ensures
        ({
            let windows = state.session.windows;
            let after = state.all_exited_closed(exited);
            &&& forall|k: int|
                0 <= k < exited.len() ==> !has_pane(
                    after.session.windows,
                    windows[(#[trigger] exited[k]).0 as int].panes[exited[k].1 as int].id,
                ) || after.exit_reason == Some(ExitReason::Quit) && !pane_left(windows, exited)
            &&& state.exit_reason == Some(ExitReason::Quit) || pane_left(windows, exited)
                ==> after.exit_reason == state.exit_reason
        }),
    decreases exited.len(),
{
    let windows = state.session.windows;
    if exited.len() > 0 {
        let (window, pane) = exited.last();
        let rest = exited.drop_last();
        let closed = state.exited_closed(window, pane);
        let id = windows[window as int].panes[pane as int].id;
        let after = state.all_exited_closed(exited);
        assert(exited.last() == exited[exited.len() - 1]);
        assert(is_pane(windows, window as int, pane as int));
        lemma_one_closed(state, window, pane);
        lemma_last_closed(state, exited);
        lemma_others_stay(closed, rest);
        lemma_ended_go(closed, rest);
        if pane_left(windows, exited) {
            let (w, i) = choose|w: usize, i: usize| #[trigger]
                is_pane(windows, w as int, i as int) && !exited.contains((w, i));
            assert(exited.contains((window, pane)));
            let (v, j) = choose|v: usize, j: usize| #[trigger]
                is_pane(closed.session.windows, v as int, j as int) && !rest.contains((v, j))
                    && closed.session.windows[v as int].panes[j as int].id
                    == windows[w as int].panes[i as int].id;
            assert(pane_left(closed.session.windows, rest));
            assert(windows.len() > 1 || windows[window as int].panes.len() > 1);
        }
        assert forall|k: int| 0 <= k < exited.len() implies !has_pane(
            after.session.windows,
            windows[(#[trigger] exited[k]).0 as int].panes[exited[k].1 as int].id,
        ) || after.exit_reason == Some(ExitReason::Quit) && !pane_left(windows, exited) by {
            if k < rest.len() {
                assert(rest[k] == exited[k]);
            } else if has_pane(after.session.windows, id) {
                assert(has_pane(closed.session.windows, id));
            }
        }
    }
}

proof fn lemma_session_ends(state: RmuxState, exited: Seq<(usize, usize)>)
    requires
        state.sound(),
        ordered(exited),
        all_panes(state.session.windows, exited),
        none_empty(state.session.windows),
        !pane_left(state.session.windows, exited),
    ensures
        ({
            let after = state.all_exited_closed(exited);
            &&& after.exit_reason == Some(ExitReason::Quit)
            &&& after.session.windows.len() == 1
            &&& after.session.windows[0].panes.len() == 1
        }),
    decreases exited.len(),
{
    let windows = state.session.windows;
    if exited.len() == 0 {
        assert(windows[0].panes.len() > 0);
        assert(is_pane(windows, 0usize as int, 0usize as int));
    } else {
        let (window, pane) = exited.last();
        let rest = exited.drop_last();
        let closed = state.exited_closed(window, pane);
        assert(exited.last() == exited[exited.len() - 1]);
        assert(is_pane(windows, window as int, pane as int));
        lemma_one_closed(state, window, pane);
        lemma_last_closed(state, exited);
        if windows.len() == 1 && windows[window as int].panes.len() == 1 {
            if rest.len() > 0 {
                assert(comes_before(exited[0], exited[exited.len() - 1]));
                assert(is_pane(windows, exited[0].0 as int, exited[0].1 as int));
            }
            assert(closed.all_exited_closed(rest) == closed);
        } else {
            if pane_left(closed.session.windows, rest) {
                let (v, j) = choose|v: usize, j: usize| #[trigger]
                    is_pane(closed.session.windows, v as int, j as int) && !rest.contains((v, j));
                let other = closed.session.windows[v as int].panes[j as int].id;
                assert(has_pane(closed.session.windows, other));
                assert(has_pane(windows, other));
                let (w, i) = choose|w: int, i: int| #[trigger]
                    is_pane(windows, w, i) && windows[w].panes[i].id == other;
                crate::soundness::lemma_window_numbered(windows, w, state.next_pane_id);
                assert(is_pane(windows, w as usize as int, i as usize as int));
                assert(exited.contains((w as usize, i as usize)));
                let k = choose|k: int|
                    0 <= k < exited.len() && exited[k] == (w as usize, i as usize);
                assert(k < rest.len());
                assert(rest[k] == exited[k]);
                assert(is_pane(closed.session.windows, rest[k].0 as int, rest[k].1 as int));
                assert(rest[k] == (v, j));
                assert(rest.contains((v, j)));
            }
            lemma_session_ends(closed, rest);
        }
    }
}

proof fn lemma_closed_tiled(state: RmuxState, exited: Seq<(usize, usize)>)
    requires
        state.sound(),
        all_tiled(state),
    ensures
        all_tiled(state.all_exited_closed(exited)),
    decreases exited.len(),
{
    if exited.len() > 0 {
        let (window, pane) = exited.last();
        let windows = state.session.windows;
        let closed = state.exited_closed(window, pane);
        crate::soundness::lemma_exited_closed(state, window, pane);
        if is_pane(windows, window as int, pane as int) {
            if windows[window as int].panes.len() > 1 {
                lemma_taken_tiled(state, window, pane);
            } else if windows.len() > 1 {
                lemma_kill_tiled(state, window);
            }
        }
        assert(all_tiled(closed));
        lemma_closed_tiled(closed, exited.drop_last());
    }
}

/// When terminals have ended, in whatever order and how often they are named, all
/// other panes are still there, in the order in which they stood. Where there is
/// another, the panes of the ended ones are gone and the session goes on as it
/// did. Where there is none, and no window was without a pane, one window of one
/// pane is left and the session ends. Windows that were tiled still are.
pub proof fn law_exited_panes_close(state: RmuxState, exited: Seq<(usize, usize)>)
    requires
        state.sound(),
        all_panes(state.session.windows, exited),
    ensures
        ({
            let windows = state.session.windows;
            let after = state.all_exited_closed(in_order(exited));
            &&& forall|k: int|
                0 <= k < exited.len() ==> !has_pane(
                    after.session.windows,
                    windows[(#[trigger] exited[k]).0 as int].panes[exited[k].1 as int].id,
                ) || after.exit_reason == Some(ExitReason::Quit) && !pane_left(windows, exited)
            &&& forall|w: usize, i: usize| #[trigger]
                is_pane(windows, w as int, i as int) && !exited.contains((w, i)) ==> has_pane(
                    after.session.windows,
                    windows[w as int].panes[i as int].id,
                )
            &&& forall|id: u64| #[trigger]
                has_pane(after.session.windows, id) ==> has_pane(windows, id)
            &&& order_kept(windows, after.session.windows)
            &&& pane_left(windows, exited) ==> after.exit_reason == state.exit_reason
            &&& none_empty(windows) && !pane_left(windows, exited) ==> {
                &&& after.exit_reason == Some(ExitReason::Quit)
                &&& after.session.windows.len() == 1
                &&& after.session.windows[0].panes.len() == 1
            }
            &&& all_tiled(state) ==> all_tiled(after)
        }),
{
    law_places_in_order(exited);
    let places = in_order(exited);
    let windows = state.session.windows;
    let after = state.all_exited_closed(places);
    assert forall|k: int| 0 <= k < places.len() implies is_pane(
        windows,
        (#[trigger] places[k]).0 as int,
        places[k].1 as int,
    ) by {
        assert(places.contains(places[k]));
        let j = choose|j: int| 0 <= j < exited.len() && exited[j] == places[k];
        assert(is_pane(windows, exited[j].0 as int, exited[j].1 as int));
    }
    assert(pane_left(windows, exited) == pane_left(windows, places)) by {
        if pane_left(windows, exited) {
            let (w, i) = choose|w: usize, i: usize| #[trigger]
                is_pane(windows, w as int, i as int) && !exited.contains((w, i));
            assert(is_pane(windows, w as int, i as int) && !places.contains((w, i)));
        }
        if pane_left(windows, places) {
            let (w, i) = choose|w: usize, i: usize| #[trigger]
                is_pane(windows, w as int, i as int) && !places.contains((w, i));
            assert(is_pane(windows, w as int, i as int) && !exited.contains((w, i)));
        }
    }
    lemma_others_stay(state, places);
    lemma_ended_go(state, places);
    if all_tiled(state) {
        lemma_closed_tiled(state, places);
    }
    if none_empty(windows) && !pane_left(windows, exited) {
        lemma_session_ends(state, places);
    }
    assert forall|k: int| 0 <= k < exited.len() implies !has_pane(
        after.session.windows,
        windows[(#[trigger] exited[k]).0 as int].panes[exited[k].1 as int].id,
    ) || after.exit_reason == Some(ExitReason::Quit) && !pane_left(windows, exited) by {
        assert(exited.contains(exited[k]));
        assert(places.contains(exited[k]));
        let j = choose|j: int| 0 <= j < places.len() && places[j] == exited[k];
        assert(windows[places[j].0 as int].panes[places[j].1 as int].id
            == windows[exited[k].0 as int].panes[exited[k].1 as int].id);
    }
}

/// Whether every window is tiled by its panes.
pub open spec fn all_tiled(state: RmuxState) -> bool {
    forall|w: int|
        0 <= w < state.session.windows.len() ==> (#[trigger] state.session.windows[w]).tiled()
}

/// What a request makes of the multiplexer once the terminal that it asked for,
/// if any, was started.
pub open spec fn once_started(step: Step) -> RmuxState {
    match step.1 {
        Ok(EffectState::Spawn(request)) => step.0.spawn_finished(request, true).0,
        _ => step.0,
    }
}

proof fn lemma_current_tiled(state: RmuxState, after: WindowState)
    requires
        all_tiled(state),
        state.session.active < state.session.windows.len(),
        after.tiled(),
    ensures
        all_tiled(state.with_current(after)),
{
}

proof fn lemma_split_tiled(state: RmuxState, axis: SplitAxis, command: Option<Seq<char>>)
    requires
        state.sound(),
        all_tiled(state),
        state.has_pane_id(),
    ensures
        all_tiled(once_started(state.split_requested(axis, command))),
{
    let window = state.current();
    let step = state.split_requested(axis, command);
    crate::soundness::lemma_session_sound(state);
    if window.panes.len() < crate::window::MAX_PANES_PER_WINDOW {
        let pane = Pane {
            id: state.next_pane_id,
            size: window.panes[window.active as int].size,
            last_rect: None,
        };
        crate::window_laws::law_split_keeps_window_tiled(window, axis, pane);
        let split = window.split_begun(axis).split_finished(
            axis,
            window.split_place(),
            true,
            pane,
        );
        assert(once_started(step).session.windows =~= state.session.windows.update(
            state.session.active as int,
            split,
        ));
    }
}

proof fn lemma_window_tiled(
    state: RmuxState,
    name: Option<Seq<char>>,
    command: Option<Seq<char>>,
)
    requires
        state.sound(),
        all_tiled(state),
        state.can_open_window(),
    ensures
        all_tiled(once_started(state.window_requested(name, command))),
{
    let pane = Pane {
        id: state.next_pane_id,
        size: crate::state::first_pane_size(state.tty_size),
        last_rect: None,
    };
    crate::window_laws::law_single_pane_tiles_window(state.current(), pane);
}

proof fn lemma_taken_tiled(state: RmuxState, w: usize, index: usize)
    requires
        state.sound(),
        all_tiled(state),
        w < state.session.windows.len(),
        state.session.windows[w as int].panes.len() > 1,
        index < state.session.windows[w as int].panes.len(),
    ensures
        state.session.windows[w as int].pane_taken(index).tiled(),
{
    crate::window_laws::law_removal_keeps_window_tiled(state.session.windows[w as int], index);
}

proof fn lemma_join_tiled(state: RmuxState, source_window: usize, source_pane: usize)
    requires
        state.sound(),
        all_tiled(state),
        state.session.can_join(source_window, source_pane),
    ensures
        all_tiled(
            RmuxState {
                session: state.session.pane_joined(source_window, source_pane),
                ..state
            },
        ),
{
    let windows = state.session.windows;
    let source = windows[source_window as int];
    let pane = source.panes[source_pane as int];
    let parted = RmuxState {
        session: state.session.pane_parted(source_window, source_pane),
        ..state
    };
    if source.panes.len() > 1 {
        lemma_taken_tiled(state, source_window, source_pane);
    }
    assert(parted.current() == state.current());
    assert forall|w: int| 0 <= w < parted.session.windows.len() implies (
    #[trigger] parted.session.windows[w]).tiled() by {
        if source.panes.len() == 1 {
            let v = if w < source_window {
                w
            } else {
                w + 1
            };
            assert(parted.session.windows[w] == windows[v]);
        }
    }
    crate::soundness::lemma_session_sound(state);
    let joined = RmuxState {
        session: state.session.pane_joined(source_window, source_pane),
        ..state
    };
    assert(state.current().panes.len() + 1 < usize::MAX) by {
        crate::soundness::lemma_pane_joined(state, source_window, source_pane);
        crate::soundness::lemma_window_numbered(
            joined.session.windows,
            joined.session.active as int,
            joined.next_pane_id,
        );
        assert(joined.current().panes == state.current().panes.push(pane));
    }
    crate::window_laws::law_push_keeps_window_tiled(state.current(), pane);
    lemma_current_tiled(parted, parted.current().pane_pushed(pane));
}

proof fn lemma_windows_swap_tiled(state: RmuxState, other: usize)
    requires
        all_tiled(state),
        state.session.active < state.session.windows.len(),
        other < state.session.windows.len(),
    ensures
        all_tiled(RmuxState { session: state.session.windows_swapped(other), ..state }),
{
    let windows = state.session.windows;
    let swapped = state.session.windows_swapped(other);
    assert forall|w: int| 0 <= w < swapped.windows.len() implies (
    #[trigger] swapped.windows[w]).tiled() by {
        let v = if w == other {
            state.session.active as int
        } else if w == state.session.active {
            other as int
        } else {
            w
        };
        assert(swapped.windows[w] == windows[v]);
    }
}

proof fn lemma_kill_tiled(state: RmuxState, index: usize)
    requires
        all_tiled(state),
        index < state.session.windows.len(),
    ensures
        all_tiled(RmuxState { session: state.session.window_killed(index), ..state }),
{
    let windows = state.session.windows;
    let killed = state.session.window_killed(index);
    assert forall|w: int| 0 <= w < killed.windows.len() implies (
    #[trigger] killed.windows[w]).tiled() by {
        let v = if w < index {
            w
        } else {
            w + 1
        };
        assert(killed.windows[w] == windows[v]);
    }
}

proof fn lemma_move_tiled(state: RmuxState, index: usize)
    requires
        all_tiled(state),
        state.session.active < state.session.windows.len(),
        index < state.session.windows.len(),
    ensures
        all_tiled(RmuxState { session: state.session.window_moved(index), ..state }),
{
    let active = state.session.active;
    if index != active {
        lemma_kill_tiled(state, active);
        let rest = state.session.window_killed(active).windows;
        let moved = state.session.window_moved(index);
        assert forall|w: int| 0 <= w < moved.windows.len() implies (
        #[trigger] moved.windows[w]).tiled() by {
            if w < index {
                assert(moved.windows[w] == rest[w]);
            } else if w > index {
                assert(moved.windows[w] == rest[w - 1]);
            }
        }
    }
}

proof fn lemma_break_tiled(state: RmuxState, name: Option<Seq<char>>)
    requires
        state.sound(),
        all_tiled(state),
        state.current().panes.len() > 1,
    ensures
        all_tiled(state.pane_broken(name)),
{
    crate::soundness::lemma_session_sound(state);
    let window = state.current();
    lemma_taken_tiled(state, state.session.active, window.active);
    crate::window_laws::law_single_pane_tiles_window(window, window.panes[window.active as int]);
}

proof fn lemma_restart_tiled(state: RmuxState, command: Option<Seq<char>>)
    requires
        state.sound(),
        all_tiled(state),
    ensures
        all_tiled(once_started(state.window_respawn_requested(command))),
{
    let pane = Pane {
        id: state.next_pane_id,
        size: crate::state::first_pane_size(state.tty_size),
        last_rect: None,
    };
    let window = state.current().emptied();
    crate::window_laws::law_single_pane_tiles_window(window, pane);
    let after = once_started(state.window_respawn_requested(command));
    assert(after.session.windows =~= state.session.windows.update(
        state.session.active as int,
        window.restarted(pane),
    ));
}

proof fn lemma_swap_tiled(state: RmuxState, direction: SwapDirection)
    requires
        state.sound(),
        all_tiled(state),
    ensures
        all_tiled(state.pane_swapped(direction).0),
        all_tiled(state.next_pane_chosen()),
        all_tiled(state.previous_pane_chosen()),
{
    crate::soundness::lemma_session_sound(state);
    crate::window_laws::law_lesser_changes_keep_window_tiled(state.current(), direction);
}

proof fn lemma_resize_tiled(state: RmuxState, direction: ResizeDirection, amount: u16)
    requires
        state.sound(),
        all_tiled(state),
    ensures
        all_tiled(state.pane_resized(direction, amount).0),
{
    let window = state.current();
    crate::window_laws::law_resize_keeps_window_tiled(window, direction, amount);
    crate::window_laws::law_lesser_changes_keep_window_tiled(window, SwapDirection::Next);
}

proof fn lemma_even_tiled(state: RmuxState, axis: SplitAxis)
    requires
        state.sound(),
        all_tiled(state),
    ensures
        all_tiled(state.with_current(state.current().laid_out_evenly(axis))),
{
    let window = state.current();
    assert(window.tiled());
    crate::window_laws::law_even_window_is_tiled(window, axis);
}

proof fn lemma_killed_panes_tiled(state: RmuxState)
    requires
        state.sound(),
        all_tiled(state),
    ensures
        ({
            let window = state.current();
            window.panes.len() > 1 ==> {
                &&& all_tiled(state.with_current(window.others_killed()))
                &&& all_tiled(state.with_current(window.pane_taken(window.active)))
            }
        }),
{
    let window = state.current();
    crate::soundness::lemma_session_sound(state);
    if window.panes.len() > 1 {
        lemma_taken_tiled(state, state.session.active, window.active);
        crate::window_laws::law_single_pane_tiles_window(window, window.panes[0]);
    }
}

/// Every command leaves every window tiled by its panes, once the terminal that
/// it asked for was started.
pub proof fn law_commands_keep_windows_tiled(state: RmuxState, command: RmuxCommand)
    requires
        state.sound(),
        all_tiled(state),
        state.can_apply(command),
    ensures
        all_tiled(once_started(state.command_applied(command))),
{
    let windows = state.session.windows;
    match command {
        RmuxCommand::NewWindow { name, command } => {
            lemma_window_tiled(
                state,
                crate::session::optional_text(name),
                crate::session::optional_text(command),
            );
        },
        RmuxCommand::SplitWindow { axis, command } => {
            lemma_split_tiled(state, axis, crate::session::optional_text(command));
        },
        RmuxCommand::NextPane | RmuxCommand::PreviousPane => {
            lemma_swap_tiled(state, SwapDirection::Next);
        },
        RmuxCommand::SwapPane { direction } => {
            lemma_swap_tiled(state, direction);
        },
        RmuxCommand::SelectLayout { axis } => {
            lemma_even_tiled(state, axis);
        },
        RmuxCommand::ResizePane { direction, amount } => {
            lemma_resize_tiled(state, direction, amount);
        },
        RmuxCommand::BreakPane { name } => {
            if state.current().panes.len() > 1 {
                lemma_break_tiled(state, crate::session::optional_text(name));
            }
        },
        RmuxCommand::JoinPane { source_window, source_pane } => {
            if state.session.can_join(source_window, source_pane) {
                lemma_join_tiled(state, source_window, source_pane);
            }
        },
        RmuxCommand::KillPane { .. } => {
            lemma_killed_panes_tiled(state);
        },
        RmuxCommand::RespawnWindow { command } => {
            lemma_restart_tiled(state, crate::session::optional_text(command));
        },
        RmuxCommand::SwapWindow { direction } => {
            if let Some(other) = state.session.neighbor(direction) {
                lemma_windows_swap_tiled(state, other);
            }
        },
        RmuxCommand::MoveWindow { index } => {
            if index < windows.len() {
                lemma_move_tiled(state, index);
            }
        },
        RmuxCommand::KillWindow => {
            lemma_kill_tiled(state, state.session.active);
        },
        _ => {},
    }
}

/// Every key leaves every window tiled by its panes, once the terminal that it
/// asked for was started.
pub proof fn law_keys_keep_windows_tiled(state: RmuxState, key: KeyEvent)
    requires
        state.sound(),
        all_tiled(state),
        state.can_take(state.key_meaning(key)),
    ensures
        all_tiled(once_started(state.key_handled(key))),
{
    let unprefixed = RmuxState { prefix: false, ..state };
    assert(all_tiled(unprefixed));
    lemma_swap_tiled(unprefixed, SwapDirection::Next);
    lemma_swap_tiled(unprefixed, SwapDirection::Previous);
    lemma_even_tiled(unprefixed, SplitAxis::Horizontal);
    lemma_even_tiled(unprefixed, SplitAxis::Vertical);
    lemma_resize_tiled(unprefixed, ResizeDirection::Left, 1);
    lemma_resize_tiled(unprefixed, ResizeDirection::Right, 1);
    lemma_resize_tiled(unprefixed, ResizeDirection::Up, 1);
    lemma_resize_tiled(unprefixed, ResizeDirection::Down, 1);
    lemma_killed_panes_tiled(unprefixed);
    lemma_killed_panes_tiled(state);
    if state.has_pane_id() {
        lemma_split_tiled(unprefixed, SplitAxis::Horizontal, None);
        lemma_split_tiled(unprefixed, SplitAxis::Vertical, None);
        lemma_split_tiled(state, SplitAxis::Horizontal, None);
        lemma_split_tiled(state, SplitAxis::Vertical, None);
    }
    if state.can_open_window() {
        lemma_window_tiled(unprefixed, None, None);
        lemma_window_tiled(state, None, None);
    }
}

/// A window that has a number from one to nine is selected by that digit with
/// control, with alt, or after the prefix key, all the same.
pub proof fn law_numbered_window_is_selected(
    state: RmuxState,
    prefix: KeyEvent,
    key: KeyEvent,
    held: KeyEvent,
)
    requires
        !state.prefix,
        crate::keys::sends_byte(prefix, state.session.prefix_key),
        key.code is Char,
        '1' <= key.code->Char_0 <= '9',
        key.modifiers.empty(),
        state.bound_to(key) is None,
        held.code == key.code,
        held.modifiers.control || held.modifiers.alt,
        (key.code->Char_0 as int - 49) < state.session.windows.len(),
    ensures
        ({
            let index = (key.code->Char_0 as int - 49) as usize;
            let selected = RmuxState { session: state.session.chosen(index), ..state };
            &&& state.key_handled(prefix).0.key_handled(key) == (
                selected,
                Ok::<EffectState, Error>(EffectState::Nothing),
            )
            &&& state.key_handled(held) == (
                selected,
                Ok::<EffectState, Error>(EffectState::Nothing),
            )
        }),
{
    let selected = RmuxState {
        session: state.session.chosen((key.code->Char_0 as int - 49) as usize),
        ..state
    };
    assert(state.key_handled(prefix).0.key_handled(key).0 =~= selected);
    assert(state.key_handled(held).0 =~= selected);
}

/// The command key of a keyboard that has one does what control does, where
/// control and the letter have a meaning of their own.
pub proof fn law_command_key_does_what_control_does(
    state: RmuxState,
    control: KeyEvent,
    command: KeyEvent,
)
    requires
        !state.prefix,
        control.code == command.code,
        control.modifiers.control,
        !control.modifiers.super_key,
        command.modifiers == (crate::keys::KeyModifiers {
            control: false,
            super_key: true,
            ..control.modifiers
        }),
        crate::keys::shortcut_of(control) is Some,
        !crate::keys::sends_byte(control, state.session.prefix_key),
    ensures
        state.key_handled(command) == state.key_handled(control),
{
}

/// The keys that close a pane never close the last one of a window: they say so
/// instead.
pub proof fn law_last_pane_is_kept(state: RmuxState, prefix: KeyEvent, kill: KeyEvent, close: KeyEvent)
    requires
        !state.prefix,
        state.current().panes.len() <= 1,
        crate::keys::sends_byte(prefix, state.session.prefix_key),
        kill.code == KeyCode::Char('x'),
        kill.modifiers.empty(),
        state.bound_to(kill) is None,
        close.code == KeyCode::Char('w'),
        close.modifiers.control,
        !crate::keys::sends_byte(close, state.session.prefix_key),
    ensures
        state.key_handled(prefix).0.key_handled(kill).0 == state.saying("last pane kept alive"@),
        state.key_handled(close).0 == state.saying("last pane kept alive"@),
{
    assert(state.key_handled(prefix).0.key_handled(kill).0 =~= state.saying(
        "last pane kept alive"@,
    ));
}

/// Toggling the layout goes from one even layout to the other and back.
pub proof fn law_toggling_layout_alternates(state: RmuxState)
    requires
        state.sound(),
        state.current().panes.len() >= 2,
    ensures
        state.layout_toggled().current().axis != state.current().axis,
        state.layout_toggled().layout_toggled() == state.with_current(
            state.current().laid_out_evenly(state.current().axis),
        ),
{
    crate::soundness::lemma_session_sound(state);
    assert(state.layout_toggled().layout_toggled() =~= state.with_current(
        state.current().laid_out_evenly(state.current().axis),
    ));
}

/// A command that is refused leaves the session as it was. (A pane that could
/// not be resized has its window show the weights of its layout again.)
pub proof fn law_refused_command_keeps_session(state: RmuxState, command: RmuxCommand)
    requires
        state.command_applied(command).1 is Err,
    ensures
        ({
            let after = state.command_applied(command).0;
            &&& command !is ResizePane ==> after.session == state.session
            &&& command is ResizePane ==> after.session == state.session || after.session
                == state.session.with_current(state.current().synced())
        }),
{
}

/// A key that detaches leaves the session as it is.
pub proof fn law_detaching_key_keeps_session(state: RmuxState, key: KeyEvent)
    requires
        state.key_handled(key).0.exit_reason == Some(ExitReason::Detach),
        state.exit_reason is None,
    ensures
        state.key_handled(key).0.session == state.session,
{
}

/// Detaching clients is seen by every client that was served before it, and
/// leaves the session as it is. (A count that has come to its end stays there.)
pub proof fn law_detaching_reaches_every_client(state: RmuxState)
    requires
        state.detach_generation < u64::MAX,
    ensures
        state.clients_detached().detach_generation != state.detach_generation,
        state.clients_detached().session == state.session,
{
}

/// A prefix key that was set starts a command when its byte is typed.
pub proof fn law_set_prefix_key_starts_command(state: RmuxState, byte: u8, key: KeyEvent)
    requires
        crate::keys::sends_byte(key, byte),
        !state.prefix,
    ensures
        ({
            let set = state.command_applied(RmuxCommand::SetPrefixKey { key: byte }).0;
            set.key_handled(key).0 == (RmuxState { prefix: true, ..set })
        }),
{
}

proof fn lemma_rect_at(rects: Seq<Rect>, from: int, col: u16, row: u16)
    requires
        0 <= from <= rects.len() <= usize::MAX,
    ensures
        match rect_at(rects, from, col, row) {
            Some(i) => from <= i < rects.len() && crate::geometry::hits(rects[i as int], col, row),
            None => forall|i: int|
                from <= i < rects.len() ==> !crate::geometry::hits(#[trigger] rects[i], col, row),
        },
    decreases rects.len() - from,
{
    if from < rects.len() && !crate::geometry::hits(rects[from], col, row) {
        lemma_rect_at(rects, from + 1, col, row);
    }
}

/// A click inside the panes selects the one pane that lies there.
pub proof fn law_click_selects_pane_under_it(state: RmuxState, col: u16, row: u16)
    requires
        state.sound(),
        state.current().tiled(),
        col < state.tty_size.cols,
        !state.in_status(row),
    ensures
        exists|i: usize|
            i < state.current().panes.len() && #[trigger] state.rects()[i as int].covers(
                col as int,
                row as int,
            ) && state.pane_chosen_at(col, row) == (state.pane_chosen(i), true),
{
    let window = state.current();
    let area = crate::state::panes_area(state.tty_size);
    crate::soundness::lemma_session_sound(state);
    crate::window_laws::law_window_covers_area(window, area);
    assert(area.covers(col as int, row as int));
    let rects = state.rects();
    let k = choose|k: int|
        0 <= k < window.panes.len() && (#[trigger] window.pane_rects(area)[k]).covers(
            col as int,
            row as int,
        );
    assert(rects[k].covers(col as int, row as int));
    lemma_covered_is_hit(rects[k], col, row);
    lemma_rect_at(rects, 0, col, row);
    let i = rect_at(rects, 0, col, row)->0;
    assert(crate::layout_laws::within(rects[i as int], area));
    lemma_hit_is_covered(rects[i as int], col, row);
    assert(rects[i as int].covers(col as int, row as int));
}

proof fn lemma_covered_is_hit(rect: Rect, col: u16, row: u16)
    requires
        rect.covers(col as int, row as int),
        col < u16::MAX,
        row < u16::MAX,
    ensures
        crate::geometry::hits(rect, col, row),
{
}

proof fn lemma_hit_is_covered(rect: Rect, col: u16, row: u16)
    requires
        crate::geometry::hits(rect, col, row),
    ensures
        rect.covers(col as int, row as int),
{
}

} // verus!
