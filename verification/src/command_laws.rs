//! What commands are for: which windows and panes there are after one, in which order,
//! and which of them is active.

use vstd::prelude::*;
#[allow(unused_imports)]
use vstd::string::*;

#[allow(unused_imports)]
use crate::error::Error;
#[allow(unused_imports)]
use crate::geometry::Rect;
#[allow(unused_imports)]
use crate::layout::PaneLayout;
#[allow(unused_imports)]
use crate::mux_laws::once_started;
#[allow(unused_imports)]
use crate::protocol::{ResizeDirection, RmuxCommand, SplitAxis, SwapDirection};
#[allow(unused_imports)]
use crate::session::SessionState;
#[allow(unused_imports)]
use crate::state::{panes_area, EffectState, RmuxState};
#[allow(unused_imports)]
use crate::window::{Pane, WindowState};

verus! {

/// The state with the active window, and the one remembered, changed and nothing else.
pub open spec fn window_switched(state: RmuxState, active: usize, last: Option<usize>) -> RmuxState {
    RmuxState { session: SessionState { active, last, ..state.session }, ..state }
}

/// The state with the active window changed to another value and nothing else.
pub open spec fn window_replaced(state: RmuxState, window: WindowState) -> RmuxState {
    RmuxState {
        session: SessionState {
            windows: state.session.windows.update(state.session.active as int, window),
            ..state.session
        },
        ..state
    }
}

/// The ids of some panes, in order.
pub open spec fn ids_of(panes: Seq<Pane>) -> Seq<u64> {
    panes.map_values(|pane: Pane| pane.id)
}

/// The active window of a state.
pub open spec fn shown_window(state: RmuxState) -> WindowState {
    state.session.windows[state.session.active as int]
}

/// Selecting a window makes the one with that number active and remembers the one that
/// was; there is nothing to select beyond the last, and nothing else changes. The next
/// window is the one after, the previous the one before, round the ends, and the last one
/// is the one that was left.
pub proof fn law_windows_are_selected(state: RmuxState, index: usize)
    requires
        state.session.active < state.session.windows.len() <= usize::MAX,
    ensures
        ({
            let count = state.session.windows.len() as int;
            let active = state.session.active as int;
            let (selected, told) = state.command_applied(RmuxCommand::SelectWindow { index });
            let next = state.command_applied(RmuxCommand::NextWindow);
            let previous = state.command_applied(RmuxCommand::PreviousWindow);
            &&& index < count ==> told == Ok::<EffectState, Error>(EffectState::Nothing)
                && selected == window_switched(
                state,
                index,
                if index == active {
                    state.session.last
                } else {
                    Some(state.session.active)
                },
            )
            &&& index >= count ==> told == Err::<EffectState, Error>(Error::NoSuchWindow { index })
                && selected == state
            &&& next.1 == Ok::<EffectState, Error>(EffectState::Nothing)
            &&& next.0.session.active == (active + 1) % count
            &&& next.0 == window_switched(state, next.0.session.active, next.0.session.last)
            &&& previous.1 == Ok::<EffectState, Error>(EffectState::Nothing)
            &&& (previous.0.session.active + 1) % count == active
            &&& previous.0.session.active < count
            &&& previous.0 == window_switched(
                state,
                previous.0.session.active,
                previous.0.session.last,
            )
            &&& index < count && index != active ==> {
                let back = selected.command_applied(RmuxCommand::LastWindow);
                &&& back.1 == Ok::<EffectState, Error>(EffectState::Nothing)
                &&& back.0 == window_switched(state, state.session.active, Some(index))
            }
            &&& state.session.last is None ==> state.command_applied(RmuxCommand::LastWindow) == (
                state,
                Err::<EffectState, Error>(Error::NoLastWindow),
            )
        }),
{
    let count = state.session.windows.len() as int;
    let active = state.session.active as int;
    if active + 1 == count {
        vstd::arithmetic::div_mod::lemma_mod_self_0(count);
    } else {
        vstd::arithmetic::div_mod::lemma_small_mod((active + 1) as nat, count as nat);
    }
    let previous = state.command_applied(RmuxCommand::PreviousWindow).0.session.active as int;
    if active == 0 {
        vstd::arithmetic::div_mod::lemma_mod_self_0(count);
    } else {
        vstd::arithmetic::div_mod::lemma_small_mod(active as nat, count as nat);
    }
    let (selected, _) = state.command_applied(RmuxCommand::SelectWindow { index });
    if index < count && index != active {
        let back = selected.command_applied(RmuxCommand::LastWindow).0;
        assert(back =~= window_switched(state, state.session.active, Some(index)));
    }
}

/// Selecting a pane makes the one with that number active and changes nothing else; there
/// is nothing to select beyond the last. The next pane is the one after, the previous the
/// one before, round the ends.
pub proof fn law_panes_are_selected(state: RmuxState, index: usize)
    requires
        state.session.active < state.session.windows.len(),
        shown_window(state).active < shown_window(state).panes.len() <= usize::MAX,
    ensures
        ({
            let window = shown_window(state);
            let count = window.panes.len() as int;
            let active = window.active as int;
            let (selected, told) = state.command_applied(RmuxCommand::SelectPane { index });
            let next = state.command_applied(RmuxCommand::NextPane);
            let previous = state.command_applied(RmuxCommand::PreviousPane);
            &&& index < count ==> told == Ok::<EffectState, Error>(EffectState::Nothing)
                && selected == window_replaced(state, WindowState { active: index, ..window })
            &&& index >= count ==> told == Err::<EffectState, Error>(Error::NoSuchPane { index })
                && selected == state
            &&& next.1 == Ok::<EffectState, Error>(EffectState::Nothing)
            &&& shown_window(next.0).active == (active + 1) % count
            &&& next.0 == window_replaced(
                state,
                WindowState { active: shown_window(next.0).active, ..window },
            )
            &&& previous.1 == Ok::<EffectState, Error>(EffectState::Nothing)
            &&& (shown_window(previous.0).active + 1) % count == active
            &&& shown_window(previous.0).active < count
            &&& previous.0 == window_replaced(
                state,
                WindowState { active: shown_window(previous.0).active, ..window },
            )
        }),
{
    let window = shown_window(state);
    let count = window.panes.len() as int;
    let active = window.active as int;
    if active + 1 == count {
        vstd::arithmetic::div_mod::lemma_mod_self_0(count);
    } else {
        vstd::arithmetic::div_mod::lemma_small_mod((active + 1) as nat, count as nat);
    }
    if active == 0 {
        vstd::arithmetic::div_mod::lemma_mod_self_0(count);
    } else {
        vstd::arithmetic::div_mod::lemma_small_mod(active as nat, count as nat);
    }
}

/// Whether two lists are the same but for two items, which have changed places.
pub open spec fn traded<T>(before: Seq<T>, after: Seq<T>, i: int, j: int) -> bool {
    &&& after.len() == before.len()
    &&& 0 <= i < before.len() && 0 <= j < before.len()
    &&& after[i] == before[j] && after[j] == before[i]
    &&& forall|k: int|
        0 <= k < before.len() && k != i && k != j ==> #[trigger] after[k] == before[k]
}

/// Swapping exchanges the active pane or window with the one after or before it, which
/// stays active at its new place while the rectangles stay where they are; at the ends
/// there is nothing to swap with, and nothing changes.
pub proof fn law_swap_trades_places(state: RmuxState, direction: SwapDirection)
    requires
        state.session.active < state.session.windows.len() <= usize::MAX,
        shown_window(state).active < shown_window(state).panes.len() <= usize::MAX,
        shown_window(state).weights.len() == shown_window(state).panes.len(),
    ensures
        ({
            let window = shown_window(state);
            let step: int = match direction {
                SwapDirection::Next => 1,
                SwapDirection::Previous => -1,
            };
            let other = window.active + step;
            let (swapped, told) = state.command_applied(RmuxCommand::SwapPane { direction });
            let now = shown_window(swapped);
            &&& 0 <= other < window.panes.len() ==> {
                &&& told == Ok::<EffectState, Error>(EffectState::Nothing)
                &&& traded(window.panes, now.panes, window.active as int, other)
                &&& traded(window.weights, now.weights, window.active as int, other)
                &&& now.active == other
                &&& now.layout == window.layout
                &&& swapped == window_replaced(
                    state,
                    WindowState {
                        panes: now.panes,
                        weights: now.weights,
                        active: now.active,
                        ..window
                    },
                )
            }
            &&& !(0 <= other < window.panes.len()) ==> told == Err::<EffectState, Error>(
                Error::PaneCannotSwap,
            ) && swapped == state
        }),
        ({
            let step: int = match direction {
                SwapDirection::Next => 1,
                SwapDirection::Previous => -1,
            };
            let other = state.session.active + step;
            let (swapped, told) = state.command_applied(RmuxCommand::SwapWindow { direction });
            let windows = state.session.windows;
            &&& 0 <= other < windows.len() ==> {
                &&& told == Ok::<EffectState, Error>(EffectState::Nothing)
                &&& traded(windows, swapped.session.windows, state.session.active as int, other)
                &&& swapped.session.active == other
                &&& swapped == RmuxState {
                    session: SessionState {
                        windows: swapped.session.windows,
                        active: swapped.session.active,
                        last: swapped.session.last,
                        ..state.session
                    },
                    ..state
                }
            }
            &&& !(0 <= other < windows.len()) ==> told == Err::<EffectState, Error>(
                Error::WindowCannotSwap,
            ) && swapped == state
        }),
{
}

/// Moving the active window puts it at the place asked for, where it stays active, and
/// leaves the others in the order in which they stood.
pub proof fn law_moved_window_goes_where_asked(state: RmuxState, index: usize)
    requires
        state.session.active < state.session.windows.len() <= usize::MAX,
    ensures
        ({
            let windows = state.session.windows;
            let (moved, told) = state.command_applied(RmuxCommand::MoveWindow { index });
            let now = moved.session.windows;
            &&& index < windows.len() ==> {
                &&& told == Ok::<EffectState, Error>(EffectState::Nothing)
                &&& now.len() == windows.len()
                &&& moved.session.active == index
                &&& now[index as int] == windows[state.session.active as int]
                &&& now.remove(index as int) == windows.remove(state.session.active as int)
                &&& moved == RmuxState {
                    session: SessionState {
                        windows: now,
                        active: index,
                        last: moved.session.last,
                        ..state.session
                    },
                    ..state
                }
            }
            &&& index >= windows.len() ==> told == Err::<EffectState, Error>(
                Error::NoSuchWindow { index },
            ) && moved == state
        }),
{
    let windows = state.session.windows;
    let (moved, _) = state.command_applied(RmuxCommand::MoveWindow { index });
    if index < windows.len() {
        assert(moved.session.windows.remove(index as int) =~= windows.remove(
            state.session.active as int,
        ));
    }
}

/// Killing a pane takes away the active one and no other; the one that came after it is
/// active then, or the last where it was the last. Killing the others leaves the active
/// one alone. The only pane of a window stays.
pub proof fn law_killed_panes_go(state: RmuxState)
    requires
        state.session.active < state.session.windows.len(),
        shown_window(state).panes.len() > 0 ==> shown_window(state).active < shown_window(
            state,
        ).panes.len() <= usize::MAX,
    ensures
        ({
            let window = shown_window(state);
            let count = window.panes.len();
            let (killed, told) = state.command_applied(RmuxCommand::KillPane { all_other: false });
            let (alone, asked) = state.command_applied(RmuxCommand::KillPane { all_other: true });
            &&& count > 1 ==> {
                &&& told == Ok::<EffectState, Error>(EffectState::Nothing)
                &&& shown_window(killed).panes == window.panes.remove(window.active as int)
                &&& shown_window(killed).active == if window.active + 1 < count {
                    window.active as int
                } else {
                    count - 2
                }
                &&& killed == window_replaced(state, shown_window(killed))
                &&& shown_window(killed).id == window.id
                &&& shown_window(killed).name == window.name
                &&& shown_window(killed).synchronized == window.synchronized
                &&& asked == Ok::<EffectState, Error>(EffectState::Nothing)
                &&& shown_window(alone).panes == seq![window.panes[window.active as int]]
                &&& shown_window(alone).active == 0
                &&& alone == window_replaced(state, shown_window(alone))
                &&& shown_window(alone).id == window.id
                &&& shown_window(alone).name == window.name
            }
            &&& count <= 1 ==> {
                &&& (killed, told) == (
                    state,
                    Err::<EffectState, Error>(Error::LastPaneCannotBeKilled),
                )
                &&& (alone, asked) == (state, Err::<EffectState, Error>(Error::NoOtherPanes))
            }
        }),
{
}

/// Killing a window takes away the active one and no other; the one that came after it is
/// active then, or the last where it was the last. The only window stays.
pub proof fn law_killed_window_goes(state: RmuxState)
    requires
        state.session.active < state.session.windows.len() <= usize::MAX,
    ensures
        ({
            let windows = state.session.windows;
            let active = state.session.active;
            let (killed, told) = state.command_applied(RmuxCommand::KillWindow);
            &&& windows.len() > 1 ==> {
                &&& told == Ok::<EffectState, Error>(EffectState::Nothing)
                &&& killed.session.windows == windows.remove(active as int)
                &&& killed.session.active == if active + 1 < windows.len() {
                    active as int
                } else {
                    windows.len() - 2
                }
            }
            &&& windows.len() <= 1 ==> (killed, told) == (
                state,
                Err::<EffectState, Error>(Error::LastWindowCannotBeKilled),
            )
        }),
{
}

/// Breaking takes the active pane out of its window and puts it, alone, into a new window
/// at the end, which is active then and has the name asked for.
pub proof fn law_broken_pane_has_its_own_window(state: RmuxState, name: Option<String>)
    requires
        state.session.active < state.session.windows.len() < usize::MAX,
        shown_window(state).panes.len() > 0 ==> shown_window(state).active < shown_window(
            state,
        ).panes.len() <= usize::MAX,
    ensures
        ({
            let window = shown_window(state);
            let windows = state.session.windows;
            let (broken, told) = state.command_applied(RmuxCommand::BreakPane { name });
            let now = broken.session.windows;
            &&& window.panes.len() > 1 ==> {
                &&& told == Ok::<EffectState, Error>(EffectState::Nothing)
                &&& now.len() == windows.len() + 1
                &&& broken.session.active == windows.len()
                &&& now.last().panes == seq![window.panes[window.active as int]]
                &&& now.last().id == state.next_window_id
                &&& state.next_window_id < u64::MAX ==> broken.next_window_id
                    == state.next_window_id + 1
                &&& name matches Some(name) ==> now.last().name == name@
                &&& now[state.session.active as int].panes == window.panes.remove(
                    window.active as int,
                )
                &&& now[state.session.active as int].id == window.id
                &&& forall|w: int|
                    0 <= w < windows.len() && w != state.session.active ==> #[trigger] now[w]
                        == windows[w]
            }
            &&& window.panes.len() <= 1 ==> (broken, told) == (
                state,
                Err::<EffectState, Error>(Error::LastPaneCannotBreak),
            )
        }),
{
}

/// Joining takes a pane out of another window and puts it into the active one, where it
/// is active then; a window that has no pane left goes. There is nothing to join that is
/// not there, or is there already.
pub proof fn law_joined_pane_comes_over(state: RmuxState, source_window: usize, source_pane: usize)
    requires
        state.session.active < state.session.windows.len() <= usize::MAX,
        shown_window(state).panes.len() < usize::MAX,
    ensures
        ({
            let windows = state.session.windows;
            let window = shown_window(state);
            let source = windows[source_window as int];
            let (joined, told) = state.command_applied(
                RmuxCommand::JoinPane { source_window, source_pane },
            );
            let now = joined.session.windows;
            let there = source_window < windows.len() && source_window != state.session.active
                && source_pane < source.panes.len();
            &&& there ==> {
                &&& told == Ok::<EffectState, Error>(EffectState::Nothing)
                &&& shown_window(joined).id == window.id
                &&& shown_window(joined).panes == window.panes.push(
                    source.panes[source_pane as int],
                )
                &&& shown_window(joined).active == window.panes.len()
                &&& source.panes.len() > 1 ==> {
                    &&& now.len() == windows.len()
                    &&& now[source_window as int].panes == source.panes.remove(source_pane as int)
                    &&& now[source_window as int].id == source.id
                    &&& joined.session.active == state.session.active
                }
                &&& source.panes.len() == 1 ==> {
                    &&& now.len() == windows.len() - 1
                    &&& joined.session.active == if source_window < state.session.active {
                        state.session.active - 1
                    } else {
                        state.session.active as int
                    }
                    &&& forall|w: int|
                        0 <= w < now.len() && w != joined.session.active ==> #[trigger] now[w]
                            == windows.remove(source_window as int)[w]
                }
            }
            &&& !there ==> (joined, told) == (state, Err::<EffectState, Error>(Error::PaneCannotJoin))
        }),
{
}

/// A split, once its terminal is started, puts the new pane right after the active one in
/// the same window, where it is active then; it has the next id, and runs the command
/// asked for, or else the one set for the session.
pub proof fn law_split_adds_pane_behind_active(
    state: RmuxState,
    axis: SplitAxis,
    command: Option<String>,
)
    requires
        state.sound(),
        state.current().tiled(),
        state.has_pane_id(),
        state.current().panes.len() < 64,
    ensures
        ({
            let window = shown_window(state);
            let step = state.command_applied(RmuxCommand::SplitWindow { axis, command });
            let split = shown_window(once_started(step));
            let at = window.active + 1;
            &&& split.panes.len() == window.panes.len() + 1
            &&& split.panes[at].id == state.next_pane_id
            &&& split.panes.remove(at) == window.panes
            &&& split.active == at
            &&& split.id == window.id && split.name == window.name
            &&& once_started(step).next_pane_id == state.next_pane_id + 1
            &&& once_started(step).session.windows.len() == state.session.windows.len()
            &&& step.1 matches Ok(EffectState::Spawn(request)) && request.pane_id
                == state.next_pane_id && request.command == match command {
                Some(command) => Some(command@),
                None => state.session.default_command,
            }
        }),
{
    let window = state.current();
    crate::soundness::lemma_session_sound(state);
    let pane = Pane {
        id: state.next_pane_id,
        size: window.panes[window.active as int].size,
        last_rect: None,
    };
    crate::soundness::lemma_window_numbered(
        state.session.windows,
        state.session.active as int,
        state.next_pane_id,
    );
    crate::window_laws::law_split_keeps_window_tiled(window, axis, pane);
    let at = (window.active + 1) as int;
    assert(window.panes.insert(at, pane).remove(at) =~= window.panes);
    let step = state.command_applied(RmuxCommand::SplitWindow { axis, command });
    let split = shown_window(once_started(step));
    let begun = window.split_begun(axis);
    assert(begun.split_finished(axis, at as usize, true, pane).panes == window.panes.insert(
        at,
        pane,
    ));
}

/// A new window, once its terminal is started, stands at the end and is active then. It
/// has one pane, the next ids, and the name asked for.
pub proof fn law_new_window_stands_at_end(
    state: RmuxState,
    name: Option<String>,
    command: Option<String>,
)
    requires
        state.sound(),
        state.has_pane_id(),
        state.has_window_id(),
        state.session.windows.len() < 64,
    ensures
        ({
            let step = state.command_applied(RmuxCommand::NewWindow { name, command });
            let opened = once_started(step);
            let windows = state.session.windows;
            let new = shown_window(opened);
            &&& opened.session.windows == windows.push(new)
            &&& opened.session.active == windows.len()
            &&& new.id == state.next_window_id
            &&& opened.next_window_id == state.next_window_id + 1
            &&& opened.next_pane_id == state.next_pane_id + 1
            &&& new.panes.len() == 1 && new.panes[0].id == state.next_pane_id
            &&& name matches Some(name) ==> new.name == name@
            &&& step.1 matches Ok(EffectState::Spawn(request)) && request.pane_id
                == state.next_pane_id && request.command == match command {
                Some(command) => Some(command@),
                None => state.session.default_command,
            }
        }),
{
}

/// Each setting changes what it is named after and nothing else.
pub proof fn law_settings_are_set(
    state: RmuxState,
    name: String,
    command: Option<String>,
    key: u8,
    enabled: bool,
)
    requires
        state.session.active < state.session.windows.len(),
    ensures
        ({
            let done = Ok::<EffectState, Error>(EffectState::Nothing);
            let window = shown_window(state);
            &&& state.command_applied(RmuxCommand::RenameWindow { name }) == (
                window_replaced(state, WindowState { name: name@, ..window }),
                done,
            )
            &&& state.command_applied(RmuxCommand::RenameSession { name }) == (
                RmuxState { session: SessionState { name: name@, ..state.session }, ..state },
                done,
            )
            &&& state.command_applied(RmuxCommand::SetPrefixKey { key }) == (
                RmuxState { session: SessionState { prefix_key: key, ..state.session }, ..state },
                done,
            )
            &&& state.command_applied(RmuxCommand::SetSynchronizePanes { enabled }) == (
                window_replaced(state, WindowState { synchronized: enabled, ..window }),
                done,
            )
            &&& state.command_applied(RmuxCommand::SetDefaultCommand { command }) == (
                RmuxState {
                    session: SessionState {
                        default_command: match command {
                            Some(command) => Some(command@),
                            None => None,
                        },
                        ..state.session
                    },
                    ..state
                },
                done,
            )
        }),
{
}

/// What is typed goes to the active pane alone, or to every pane of the active window
/// where its panes are synchronized; and so does the prefix key where it is sent.
pub proof fn law_typing_goes_to_active_panes(state: RmuxState, bytes: Seq<u8>)
    requires
        state.session.active < state.session.windows.len(),
    ensures
        ({
            let window = shown_window(state);
            let panes = if window.synchronized {
                ids_of(window.panes)
            } else {
                seq![window.panes[window.active as int].id]
            };
            &&& state.typed(bytes) == EffectState::Input { panes, bytes, to_bottom: true }
            &&& state.command_applied(RmuxCommand::SendPrefix) == (
                state,
                Ok::<EffectState, Error>(state.typed(seq![state.session.prefix_key])),
            )
        }),
{
    let window = shown_window(state);
    assert(window.panes.map_values(|pane: Pane| pane.id) =~= ids_of(window.panes));
}

/// A resize of the active pane moves its edge that faces the direction outward or leaves
/// it, and changes which panes there are in no way. Where it is refused it moves no pane.
pub proof fn law_resized_pane_grows_that_way(
    state: RmuxState,
    direction: ResizeDirection,
    amount: u16,
)
    requires
        state.sound(),
        state.current().tiled(),
    ensures
        ({
            let window = shown_window(state);
            let (resized, told) = state.command_applied(
                RmuxCommand::ResizePane { direction, amount },
            );
            let now = shown_window(resized);
            let pane = window.active as int;
            &&& now.panes == window.panes && now.active == window.active
            &&& resized == window_replaced(state, now)
            &&& told is Ok ==> crate::resize_laws::stretched(
                state.rects()[pane],
                resized.rects()[pane],
                direction,
            )
            &&& told is Err ==> told == Err::<EffectState, Error>(Error::PaneCannotResize)
                && resized.rects() == state.rects()
            &&& told is Ok <==> amount > 0 && crate::resize_laws::room_found(
                window.layout,
                window.active,
                direction,
            )
        }),
{
    let window = state.current();
    let area = panes_area(state.tty_size);
    crate::soundness::lemma_session_sound(state);
    crate::layout_laws::lemma_matches_leaves(window.layout, window.panes.len());
    crate::resize_laws::law_resize_needs_room(window.layout, window.active, direction, amount);
    crate::layout_laws::law_resizing_keeps_panes(window.layout, window.active, direction, amount);
    assert(window.layout.leaves().contains(window.active));
    let (resized, told) = state.command_applied(RmuxCommand::ResizePane { direction, amount });
    let out = Seq::new(window.panes.len(), |i: int| area);
    if window.panes.len() <= 1 {
        lemma_lone_pane_has_no_room(window.layout, window.active, direction);
    }
    if told is Ok {
        crate::resize_laws::law_resize_moves_edge(
            window.layout,
            area,
            out,
            window.active,
            direction,
            amount,
        );
        assert(resized.rects() == shown_window(resized).layout.placed(area, out));
        assert(state.rects() == window.layout.placed(area, out));
    }
    assert(resized =~= window_replaced(state, shown_window(resized)));
}

proof fn lemma_lone_pane_has_no_room(layout: PaneLayout, pane: usize, direction: ResizeDirection)
    requires
        layout.leaves().len() <= 1,
    ensures
        !crate::resize_laws::room_found(layout, pane, direction),
{
    assert(layout is Leaf) by {
        if let PaneLayout::Split { first, second, .. } = layout {
            crate::resize_laws::lemma_has_leaf(*first);
            crate::resize_laws::lemma_has_leaf(*second);
        }
    }
    if crate::resize_laws::room_found(layout, pane, direction) {
        let s = choose|s: PaneLayout| #[trigger]
            crate::resize_laws::parts(layout).contains(s) && crate::resize_laws::gives_room(
                s,
                pane,
                direction,
            );
        crate::resize_laws::lemma_parts_contain(layout, s);
    }
}

/// A layout that is asked for lays the panes of the active window out evenly along its
/// axis, side by side or one above the other, and changes which panes there are in no way.
pub proof fn law_selected_layout_is_even(state: RmuxState, axis: SplitAxis)
    requires
        state.sound(),
        1 <= state.current().panes.len() <= 64,
    ensures
        ({
            let window = shown_window(state);
            let (laid, told) = state.command_applied(RmuxCommand::SelectLayout { axis });
            let now = shown_window(laid);
            let rects = laid.rects();
            let area = panes_area(state.tty_size);
            &&& told == Ok::<EffectState, Error>(EffectState::Nothing)
            &&& now.panes == window.panes && now.active == window.active
            &&& laid == window_replaced(state, now)
            &&& rects.len() == window.panes.len()
            &&& forall|i: int|
                #![trigger rects[i]]
                0 <= i < rects.len() ==> crate::place_laws::lies_across(
                    rects[i],
                    area,
                    axis,
                    crate::place_laws::lengths_along(rects, axis, i),
                )
            &&& forall|i: int, j: int|
                #![trigger rects[i], rects[j]]
                0 <= i < rects.len() && 0 <= j < rects.len() ==> crate::place_laws::length_along(
                    rects[i],
                    axis,
                ) - crate::place_laws::length_along(rects[j], axis) <= 1
        }),
{
    let window = state.current();
    let area = panes_area(state.tty_size);
    crate::soundness::lemma_session_sound(state);
    let out = Seq::new(window.panes.len(), |i: int| area);
    crate::place_laws::law_even_panes_lie_evenly(axis, window.panes.len(), area, out);
    let (laid, _) = state.command_applied(RmuxCommand::SelectLayout { axis });
    assert(laid.rects() == crate::layout::even_layout(axis, 0, window.panes.len()).placed(
        area,
        out,
    ));
}

/// A pane that is split shares its rectangle evenly with the new one, which lies to the
/// right of it or below it; every other pane stays where it is.
pub proof fn law_split_pane_shares_its_rectangle(
    state: RmuxState,
    axis: SplitAxis,
    command: Option<String>,
)
    requires
        state.sound(),
        state.current().tiled(),
        state.has_pane_id(),
        state.current().panes.len() < 64,
    ensures
        ({
            let active = shown_window(state).active as int;
            let was = state.rects();
            let now = once_started(
                state.command_applied(RmuxCommand::SplitWindow { axis, command }),
            ).rects();
            &&& crate::place_laws::side_by_side(was[active], axis, now[active], now[active + 1])
            &&& -1 <= crate::place_laws::length_along(now[active], axis)
                - crate::place_laws::length_along(now[active + 1], axis) <= 1
            &&& forall|i: int|
                0 <= i < was.len() && i != active ==> #[trigger] was[i] == now[if i < active {
                    i
                } else {
                    i + 1
                }]
        }),
{
    let window = state.current();
    let area = panes_area(state.tty_size);
    crate::soundness::lemma_session_sound(state);
    crate::soundness::lemma_window_numbered(
        state.session.windows,
        state.session.active as int,
        state.next_pane_id,
    );
    let pane = Pane {
        id: state.next_pane_id,
        size: window.panes[window.active as int].size,
        last_rect: None,
    };
    crate::window_laws::law_split_keeps_window_tiled(window, axis, pane);
    let count = window.panes.len();
    let at = (window.active + 1) as usize;
    let active = window.active;
    let renumber = crate::layout::Renumber::Insert(at);
    let moved = window.layout.renumbered(renumber);
    let split = moved.split_at(active, axis, at);
    let step = state.command_applied(RmuxCommand::SplitWindow { axis, command });
    let after = once_started(step);
    let shown = shown_window(after);
    assert(shown.layout == split);
    assert(shown.panes.len() == count + 1);
    let out = Seq::new(count, |i: int| area);
    let wide = Seq::new(count + 1, |i: int| area);
    assert(after.rects() == split.placed(area, wide));
    assert(state.rects() == window.layout.placed(area, out));
    crate::layout_laws::lemma_matches_leaves(window.layout, count);
    crate::layout_laws::lemma_distinct(window.layout);
    assert(!window.layout.has(usize::MAX)) by {
        reveal(PaneLayout::has);
        assert(window.layout.has(usize::MAX) == window.layout.leaves().contains(usize::MAX));
    }
    crate::layout_laws::lemma_renumbered(window.layout, renumber);
    crate::layout_laws::lemma_distinct(moved);
    assert forall|i: usize| #![auto] moved.has(i) == moved.leaves().contains(i) by {
        reveal(PaneLayout::has);
    }
    assert forall|i: usize| #![auto] window.layout.has(i) == window.layout.leaves().contains(i) by {
        reveal(PaneLayout::has);
    }
    assert(moved.leaves().contains(active)) by {
        assert(window.layout.has(active));
        assert(moved.has(active));
    }
    assert(!moved.leaves().contains(at)) by {
        assert(!moved.has(at));
    }
    crate::place_laws::law_split_shares_rectangle(moved, active, axis, at, area, wide);
    assert forall|i: int| 0 <= i < count implies moved.placed(area, wide)[if i < at {
        i
    } else {
        i + 1
    }] == #[trigger] window.layout.placed(area, out)[i] by {
        let k = i as usize;
        let j = if i < at {
            i as usize
        } else {
            (i + 1) as usize
        };
        assert(window.layout.leaves().contains(k));
        assert(moved.has(j)) by {
            if j > at {
                assert(window.layout.has((j - 1) as usize));
            } else {
                assert(window.layout.has(j));
            }
        }
        assert(moved.leaves().contains(j));
        crate::resize_laws::lemma_place_of(window.layout, area, out, k);
        crate::resize_laws::lemma_place_of(moved, area, wide, j);
        lemma_renumbered_place(window.layout, at, area, k);
    }
    let was = state.rects();
    let now = after.rects();
    crate::layout::lemma_placed_len(window.layout, area, out);
    assert forall|i: int| 0 <= i < was.len() && i != active implies #[trigger] was[i] == now[if i
        < active {
        i
    } else {
        i + 1
    }] by {
        let j = if i < at {
            i as usize
        } else {
            (i + 1) as usize
        };
        assert(moved.has(j)) by {
            assert(window.layout.leaves().contains(i as usize));
            if j > at {
                assert(window.layout.has((j - 1) as usize));
            } else {
                assert(window.layout.has(j));
            }
        }
        assert(moved.leaves().contains(j));
        assert(split.placed(area, wide)[j as int] == moved.placed(area, wide)[j as int]);
    }
    assert(was[active as int] == moved.placed(area, wide)[active as int]);
}

/// A pane lies where it did once the panes from a place on are numbered one higher.
proof fn lemma_renumbered_place(layout: PaneLayout, at: usize, area: Rect, pane: usize)
    requires
        layout.leaves().no_duplicates(),
        layout.leaves().contains(pane),
        !layout.leaves().contains(usize::MAX),
    ensures
        crate::resize_laws::place_of(
            layout.renumbered(crate::layout::Renumber::Insert(at)),
            area,
            if pane < at {
                pane
            } else {
                (pane + 1) as usize
            },
        ) == crate::resize_laws::place_of(layout, area, pane),
    decreases layout,
{
    let renumber = crate::layout::Renumber::Insert(at);
    if let PaneLayout::Split { axis, first_weight, second_weight, first, second } = layout {
        crate::resize_laws::lemma_sides(layout);
        let j = if pane < at {
            pane
        } else {
            (pane + 1) as usize
        };
        assert(!layout.has(usize::MAX) && !first.has(usize::MAX) && !second.has(usize::MAX)) by {
            reveal(PaneLayout::has);
        }
        crate::layout_laws::lemma_renumbered(*first, renumber);
        crate::layout_laws::lemma_renumbered(*second, renumber);
        let moved = second.renumbered(renumber);
        assert(moved.has(j) == moved.leaves().contains(j)) by {
            reveal(PaneLayout::has);
        }
        assert(moved.leaves().contains(j) == second.leaves().contains(pane));
        let sides = crate::geometry::halves(area, axis, first_weight, second_weight);
        if second.leaves().contains(pane) {
            lemma_renumbered_place(*second, at, sides.1, pane);
        } else {
            lemma_renumbered_place(*first, at, sides.0, pane);
        }
    }
}

} // verus!
