//! What holds of every session: going there and back again ends where it
//! began, and a window keeps its place in mind whatever is done to the others.

use vstd::prelude::*;

#[allow(unused_imports)]
use crate::protocol::{BoundCommand, SwapDirection};
#[allow(unused_imports)]
use crate::session::{
    binding_of, bound, index_after_move, index_after_removal, index_after_swap, SessionState,
};

verus! {

/// Going to the next window and then to the previous one, or the other way
/// round, comes back to the same window.
pub proof fn law_next_and_previous_window(session: SessionState)
    requires
        session.active < session.windows.len() <= usize::MAX,
    ensures
        session.chosen(session.next_index()).previous_index() == session.active,
        session.chosen(session.previous_index()).next_index() == session.active,
        session.next_index() < session.windows.len(),
        session.previous_index() < session.windows.len(),
{
}

/// The window that was left is the one that is gone back to, and going back
/// twice comes to where one was.
pub proof fn law_last_window_goes_back(session: SessionState, index: usize)
    requires
        session.active < session.windows.len(),
        index < session.windows.len(),
        index != session.active,
    ensures
        session.chosen(index).last_index() == Some(session.active),
        session.chosen(index).chosen(session.active).active == session.active,
        session.chosen(index).chosen(session.active).last_index() == Some(index),
{
}

/// Swapping the active window one way and then the other undoes it: all windows
/// are back, with the same one active and the same one remembered.
pub proof fn law_swap_windows_back(session: SessionState, direction: SwapDirection)
    requires
        session.active < session.windows.len() <= usize::MAX,
    ensures
        match session.neighbor(direction) {
            Some(other) => {
                let swapped = session.windows_swapped(other);
                let back = match direction {
                    SwapDirection::Next => SwapDirection::Previous,
                    SwapDirection::Previous => SwapDirection::Next,
                };
                &&& swapped.neighbor(back) == Some(session.active)
                &&& swapped.windows_swapped(session.active) == session
                &&& swapped.current() == session.current()
            },
            None => true,
        },
{
    if let Some(other) = session.neighbor(direction) {
        let swapped = session.windows_swapped(other);
        assert(swapped.windows_swapped(session.active) =~= session);
    }
}

/// A window that is moved stays the active one, and every other window is found
/// where its index has gone.
pub proof fn law_moved_windows_are_found(session: SessionState, to: usize, index: usize)
    requires
        session.active < session.windows.len() <= usize::MAX,
        to < session.windows.len(),
        index < session.windows.len(),
    ensures
        session.window_moved(to).current() == session.current(),
        session.window_moved(to).windows[index_after_move(index, session.active, to) as int]
            == session.windows[index as int],
        session.window_moved(to).windows.len() == session.windows.len(),
{
}

/// Moving the active window to where it is changes nothing.
pub proof fn lemma_moved_nowhere(session: SessionState)
    requires
        session.active < session.windows.len(),
    ensures
        session.window_moved(session.active) == session,
{
    assert(session.window_moved(session.active) =~= session);
}

/// Moving the active window and then moving it back undoes it.
pub proof fn law_move_window_back(session: SessionState, to: usize)
    requires
        session.active < session.windows.len() <= usize::MAX,
        to < session.windows.len(),
    ensures
        session.window_moved(to).window_moved(session.active) == session,
{
    assert(session.window_moved(to).window_moved(session.active) =~= session);
}

/// The window that was active before is still the one that is gone back to
/// after the active window was moved, or swapped with its neighbor.
pub proof fn law_rearranged_windows_keep_last(
    session: SessionState,
    to: usize,
    direction: SwapDirection,
)
    requires
        session.active < session.windows.len() <= usize::MAX,
        to < session.windows.len(),
        session.last_index() is Some,
    ensures
        ({
            let before = session.windows[session.last_index()->0 as int];
            let moved = session.window_moved(to);
            &&& moved.last_index() matches Some(last) && moved.windows[last as int] == before
            &&& match session.neighbor(direction) {
                Some(other) => {
                    let swapped = session.windows_swapped(other);
                    swapped.last_index() matches Some(last) && swapped.windows[last as int]
                        == before
                },
                None => true,
            }
        }),
{
}

/// The windows that are left when one is killed are found where their indices
/// have gone, and where the active one is among them it stays active.
pub proof fn law_killed_window_leaves_others(session: SessionState, removed: usize, index: usize)
    requires
        session.active < session.windows.len() <= usize::MAX,
        removed < session.windows.len(),
        index < session.windows.len(),
        session.windows.len() > 1,
    ensures
        session.window_killed(removed).active < session.window_killed(removed).windows.len(),
        session.active != removed ==> session.window_killed(removed).current()
            == session.current(),
        match index_after_removal(index, removed) {
            Some(left) => session.window_killed(removed).windows[left as int]
                == session.windows[index as int],
            None => index == removed,
        },
{
}

/// The window that was active before is still the one remembered where another is killed
/// or loses its only pane to the active one, and none is remembered where it is that one.
pub proof fn law_remembered_window_outlives_others(
    session: SessionState,
    removed: usize,
    last: usize,
    pane: usize,
)
    requires
        session.active < session.windows.len() <= usize::MAX,
        removed < session.windows.len(),
        session.last == Some(last),
        last < session.windows.len(),
    ensures
        ({
            let killed = session.window_killed(removed);
            &&& removed != last ==> (killed.last matches Some(now) && now < killed.windows.len()
                && killed.windows[now as int] == session.windows[last as int])
            &&& removed == last ==> killed.last is None
        }),
        session.can_join(removed, pane) && session.windows[removed as int].panes.len() == 1 ==> {
            let parted = session.pane_parted(removed, pane);
            &&& parted.current() == session.current()
            &&& removed != last ==> (parted.last matches Some(now) && now < parted.windows.len()
                && parted.windows[now as int] == session.windows[last as int])
            &&& removed == last ==> parted.last is None
        },
{
}

/// A key that was bound runs what it was bound to last, and binding it changes
/// no other key.
pub proof fn law_bound_key_is_found(
    bindings: Seq<(char, BoundCommand)>,
    key: char,
    command: BoundCommand,
    other: char,
)
    ensures
        binding_of(bound(bindings, key, command), key) == Some(command),
        other != key ==> binding_of(bound(bindings, key, command), other) == binding_of(
            bindings,
            other,
        ),
    decreases bindings.len(),
{
    if bindings.len() == 0 {
        let rest = seq![(key, command)].skip(1);
        assert(rest =~= seq![]);
        assert(binding_of(rest, other) is None);
    } else if bindings[0].0 == key {
        assert(bindings.update(0, (key, command)).skip(1) =~= bindings.skip(1));
    } else {
        law_bound_key_is_found(bindings.skip(1), key, command, other);
        let rest = bound(bindings.skip(1), key, command);
        assert((seq![bindings[0]] + rest).skip(1) =~= rest);
    }
}

} // verus!
