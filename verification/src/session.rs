//! A session: its windows, which of them is active, and what is set for it.

use vstd::prelude::*;
#[allow(unused_imports)]
use vstd::string::*;

use crate::protocol::{BoundCommand, SwapDirection};
use crate::window::Window;
#[allow(unused_imports)]
use crate::window::WindowState;

verus! {

/// The byte of the key that starts a command, where none was set: `Ctrl-b`.
pub const DEFAULT_PREFIX_KEY: u8 = 0x02;

/// A text that may be missing, as a mathematical value.
pub open spec fn optional_text(text: Option<String>) -> Option<Seq<char>> {
    match text {
        Some(text) => Some(text@),
        None => None,
    }
}

/// A session as a mathematical value.
#[verifier::ext_equal]
pub struct SessionState {
    pub name: Seq<char>,
    pub default_command: Option<Seq<char>>,
    pub prefix_key: u8,
    pub bindings: Seq<(char, BoundCommand)>,
    pub windows: Seq<WindowState>,
    pub active: usize,
    pub last: Option<usize>,
}

#[derive(Debug)]
pub struct Session {
    pub name: String,
    pub default_command: Option<String>,
    pub prefix_key: u8,
    pub key_bindings: Vec<(char, BoundCommand)>,
    pub windows: Vec<Window>,
    pub active_window: usize,
    pub last_window: Option<usize>,
}

pub open spec fn shown_windows(windows: Seq<Window>) -> Seq<WindowState> {
    windows.map_values(|window: Window| window@)
}

impl View for Session {
    type V = SessionState;

    open spec fn view(&self) -> SessionState {
        SessionState {
            name: self.name@,
            default_command: optional_text(self.default_command),
            prefix_key: self.prefix_key,
            bindings: self.key_bindings@,
            windows: shown_windows(self.windows@),
            active: self.active_window,
            last: self.last_window,
        }
    }
}

/// What becomes of an index when the thing at `removed` is taken out.
pub open spec fn index_after_removal(index: usize, removed: usize) -> Option<usize> {
    if index < removed {
        Some(index)
    } else if index == removed {
        None
    } else {
        Some((index - 1) as usize)
    }
}

pub open spec fn last_after_removal(last: Option<usize>, removed: usize) -> Option<usize> {
    match last {
        Some(index) => index_after_removal(index, removed),
        None => None,
    }
}

/// What becomes of an index when the thing at `from` is moved to `to`.
pub open spec fn index_after_move(index: usize, from: usize, to: usize) -> usize {
    if index == from {
        to
    } else if from < index <= to {
        (index - 1) as usize
    } else if to <= index < from {
        (index + 1) as usize
    } else {
        index
    }
}

/// What becomes of an index when the things at `a` and `b` change places.
pub open spec fn index_after_swap(index: usize, a: usize, b: usize) -> usize {
    if index == a {
        b
    } else if index == b {
        a
    } else {
        index
    }
}

/// The bindings with a key bound to a command: in its old place where the key
/// was bound already, else at the end.
pub open spec fn bound(
    bindings: Seq<(char, BoundCommand)>,
    key: char,
    command: BoundCommand,
) -> Seq<(char, BoundCommand)>
    decreases bindings.len(),
{
    if bindings.len() == 0 {
        seq![(key, command)]
    } else if bindings[0].0 == key {
        bindings.update(0, (key, command))
    } else {
        seq![bindings[0]] + bound(bindings.skip(1), key, command)
    }
}

/// The command that a key is bound to first.
pub open spec fn binding_of(bindings: Seq<(char, BoundCommand)>, key: char) -> Option<BoundCommand>
    decreases bindings.len(),
{
    if bindings.len() == 0 {
        None
    } else if bindings[0].0 == key {
        Some(bindings[0].1)
    } else {
        binding_of(bindings.skip(1), key)
    }
}

impl SessionState {
    /// There is a window, one of the windows is active, and each is sound.
    pub open spec fn sound(self) -> bool {
        &&& self.active < self.windows.len()
        &&& forall|i: int| 0 <= i < self.windows.len() ==> (#[trigger] self.windows[i]).sound()
    }

    pub open spec fn current(self) -> WindowState {
        self.windows[self.active as int]
    }

    /// The session with another value for its active window.
    pub open spec fn with_current(self, window: WindowState) -> SessionState {
        SessionState { windows: self.windows.update(self.active as int, window), ..self }
    }

    /// The session with a window made active; the one that was is remembered.
    pub open spec fn chosen(self, index: usize) -> SessionState {
        if index == self.active {
            self
        } else {
            SessionState { active: index, last: Some(self.active), ..self }
        }
    }

    pub open spec fn window_pushed(self, window: WindowState) -> SessionState {
        SessionState { windows: self.windows.push(window), ..self }.chosen(
            self.windows.len() as usize,
        )
    }

    pub open spec fn next_index(self) -> usize {
        if self.active + 1 == self.windows.len() {
            0
        } else {
            (self.active + 1) as usize
        }
    }

    pub open spec fn previous_index(self) -> usize {
        if self.active == 0 {
            (self.windows.len() - 1) as usize
        } else {
            (self.active - 1) as usize
        }
    }

    /// The window that was active before, where there is one to go back to.
    pub open spec fn last_index(self) -> Option<usize> {
        match self.last {
            Some(last) => if last < self.windows.len() && last != self.active {
                Some(last)
            } else {
                None
            },
            None => None,
        }
    }

    /// The session without the window at `index`, one of two or more.
    pub open spec fn window_killed(self, index: usize) -> SessionState {
        let windows = self.windows.remove(index as int);
        SessionState {
            windows,
            active: crate::window::active_after_removal(self.active, index, windows.len()),
            last: last_after_removal(self.last, index),
            ..self
        }
    }

    /// The window beside the active one in a direction.
    pub open spec fn neighbor(self, direction: SwapDirection) -> Option<usize> {
        match direction {
            SwapDirection::Previous => if self.active > 0 {
                Some((self.active - 1) as usize)
            } else {
                None
            },
            SwapDirection::Next => if self.active + 1 < self.windows.len() {
                Some((self.active + 1) as usize)
            } else {
                None
            },
        }
    }

    /// The session with the active window and another exchanged; the active
    /// window stays active at its new place, and the one that was active before
    /// stays remembered at its own.
    pub open spec fn windows_swapped(self, other: usize) -> SessionState {
        SessionState {
            windows: crate::window::exchanged(self.windows, self.active as int, other as int),
            active: other,
            last: match self.last {
                Some(last) => Some(index_after_swap(last, self.active, other)),
                None => None,
            },
            ..self
        }
    }

    /// The session with the active window moved to `index`. It stays active, and
    /// the one that was active before stays remembered.
    pub open spec fn window_moved(self, index: usize) -> SessionState {
        SessionState {
            windows: self.windows.remove(self.active as int).insert(index as int, self.current()),
            active: index,
            last: match self.last {
                Some(last) => Some(index_after_move(last, self.active, index)),
                None => None,
            },
            ..self
        }
    }

    /// Whether a pane can be moved from another window into the active one.
    pub open spec fn can_join(self, source_window: usize, source_pane: usize) -> bool {
        &&& source_window < self.windows.len()
        &&& source_window != self.active
        &&& source_pane < self.windows[source_window as int].panes.len()
    }

    /// The session with a pane taken out of another window; where it was the
    /// only one there, the window goes with it.
    pub open spec fn pane_parted(self, source_window: usize, source_pane: usize) -> SessionState {
        let source = self.windows[source_window as int];
        if source.panes.len() == 1 {
            SessionState {
                windows: self.windows.remove(source_window as int),
                active: if source_window < self.active {
                    (self.active - 1) as usize
                } else {
                    self.active
                },
                last: last_after_removal(self.last, source_window),
                ..self
            }
        } else {
            SessionState {
                windows: self.windows.update(
                    source_window as int,
                    source.pane_taken(source_pane),
                ),
                ..self
            }
        }
    }

    /// The session with a pane moved from another window into the active one.
    pub open spec fn pane_joined(self, source_window: usize, source_pane: usize) -> SessionState {
        let parted = self.pane_parted(source_window, source_pane);
        parted.with_current(
            parted.current().pane_pushed(
                self.windows[source_window as int].panes[source_pane as int],
            ),
        )
    }
}

pub fn normalize_removed_index(index: usize, removed: usize) -> (result: Option<usize>)
    ensures
        result == index_after_removal(index, removed),
{
    if index < removed {
        Some(index)
    } else if index == removed {
        None
    } else {
        Some(index - 1)
    }
}

pub fn remap_moved_index(index: usize, from: usize, to: usize) -> (result: usize)
    ensures
        result == index_after_move(index, from, to),
{
    if index == from {
        to
    } else if from < index && index <= to {
        index - 1
    } else if to <= index && index < from {
        index + 1
    } else {
        index
    }
}

impl Session {
    /// There are as many windows in the mathematical value as in the list.
    pub proof fn lemma_counted(&self)
        ensures
            self@.windows.len() == self.windows.len(),
            self@.windows.len() == self.windows@.len(),
    {
    }

    pub fn new(name: String, first_window: Window) -> (result: Session)
        ensures
            result@ == (SessionState {
                name: name@,
                default_command: None,
                prefix_key: DEFAULT_PREFIX_KEY,
                bindings: seq![],
                windows: seq![first_window@],
                active: 0,
                last: None,
            }),
    {
        let ghost shown = first_window@;
        let session = Session {
            name,
            default_command: None,
            prefix_key: DEFAULT_PREFIX_KEY,
            key_bindings: Vec::new(),
            windows: vec![first_window],
            active_window: 0,
            last_window: None,
        };
        assert(session@.windows =~= seq![shown]);
        session
    }

    pub fn active_window(&self) -> (result: &Window)
        requires
            self@.sound(),
        ensures
            result@ == self@.current(),
    {
        &self.windows[self.active_window]
    }

    pub fn active_window_mut(&mut self) -> (result: &mut Window)
        requires
            old(self)@.sound(),
        ensures
            (*result)@ == old(self)@.current(),
            final(self)@ == old(self)@.with_current((*final(result))@),
    {
        let active: usize = self.active_window;
        proof {
            let before = self.windows@;
            assert forall|after: Window|
                shown_windows(#[trigger] before.update(active as int, after)) == shown_windows(
                    before,
                ).update(active as int, after@) by {
                assert(shown_windows(before.update(active as int, after)) =~= shown_windows(
                    before,
                ).update(active as int, after@));
            }
        }
        &mut self.windows[active]
    }

    pub fn push_window(&mut self, window: Window)
        requires
            old(self)@.sound(),
        ensures
            final(self)@ == old(self)@.window_pushed(window@),
    {
        self.windows.push(window);
        assert(self@.windows =~= old(self)@.windows.push(window@));
        self.set_active_window(self.windows.len() - 1);
    }

    pub fn select_window(&mut self, index: usize) -> (result: bool)
        ensures
            result == (index < old(self)@.windows.len()),
            final(self)@ == if result {
                old(self)@.chosen(index)
            } else {
                old(self)@
            },
    {
        if index < self.windows.len() {
            self.set_active_window(index);
            true
        } else {
            false
        }
    }

    pub fn next_window(&mut self)
        requires
            old(self)@.sound(),
        ensures
            final(self)@ == old(self)@.chosen(old(self)@.next_index()),
    {
        let next: usize = if self.active_window == self.windows.len() - 1 {
            0
        } else {
            self.active_window + 1
        };
        self.set_active_window(next);
    }

    pub fn previous_window(&mut self)
        requires
            old(self)@.sound(),
        ensures
            final(self)@ == old(self)@.chosen(old(self)@.previous_index()),
    {
        let next: usize = if self.active_window == 0 {
            self.windows.len() - 1
        } else {
            self.active_window - 1
        };
        self.set_active_window(next);
    }

    pub fn last_window(&mut self) -> (result: bool)
        ensures
            result == (old(self)@.last_index() is Some),
            final(self)@ == match old(self)@.last_index() {
                Some(last) => old(self)@.chosen(last),
                None => old(self)@,
            },
    {
        let last: usize = match self.last_window {
            Some(last) => last,
            None => {
                return false;
            },
        };
        if last >= self.windows.len() || last == self.active_window {
            return false;
        }
        self.set_active_window(last);
        true
    }

    pub fn kill_active_window(&mut self) -> (result: bool)
        requires
            old(self)@.sound(),
        ensures
            result == (old(self)@.windows.len() > 1),
            final(self)@ == if result {
                old(self)@.window_killed(old(self)@.active)
            } else {
                old(self)@
            },
    {
        self.kill_window(self.active_window)
    }

    pub fn kill_window(&mut self, index: usize) -> (result: bool)
        requires
            old(self)@.sound(),
        ensures
            result == (old(self)@.windows.len() > 1 && index < old(self)@.windows.len()),
            final(self)@ == if result {
                old(self)@.window_killed(index)
            } else {
                old(self)@
            },
    {
        if self.windows.len() <= 1 || index >= self.windows.len() {
            return false;
        }
        self.windows.remove(index);
        assert(self@.windows =~= old(self)@.windows.remove(index as int));
        if self.active_window > index {
            self.active_window = self.active_window - 1;
        } else if self.active_window > self.windows.len() - 1 {
            self.active_window = self.windows.len() - 1;
        }
        self.forget_removed_window(index);
        true
    }

    /// Keeps the remembered window in step with the removal of another.
    fn forget_removed_window(&mut self, removed: usize)
        ensures
            final(self)@ == (SessionState {
                last: last_after_removal(old(self)@.last, removed),
                ..old(self)@
            }),
    {
        self.last_window = match self.last_window {
            Some(last) => normalize_removed_index(last, removed),
            None => None,
        };
    }

    pub fn swap_active_window(&mut self, direction: SwapDirection) -> (result: bool)
        requires
            old(self)@.sound(),
        ensures
            result == (old(self)@.neighbor(direction) is Some),
            final(self)@ == match old(self)@.neighbor(direction) {
                Some(other) => old(self)@.windows_swapped(other),
                None => old(self)@,
            },
    {
        let other: usize = match self.swap_index(direction) {
            Some(other) => other,
            None => {
                return false;
            },
        };
        proof {
            self.lemma_counted();
        }
        let active: usize = self.active_window;
        let first: usize = if active < other {
            active
        } else {
            other
        };
        assert(first + 1 == active || first + 1 == other);
        let window = self.windows.remove(first);
        self.windows.insert(first + 1, window);
        assert(self.windows@ =~= crate::window::exchanged(
            old(self).windows@,
            active as int,
            other as int,
        ));
        assert(self@.windows =~= crate::window::exchanged(
            old(self)@.windows,
            active as int,
            other as int,
        ));
        self.remap_last_after_swap(active, other);
        self.active_window = other;
        true
    }

    pub fn move_active_window(&mut self, index: usize) -> (result: bool)
        requires
            old(self)@.sound(),
        ensures
            result == (index < old(self)@.windows.len()),
            final(self)@ == if result {
                old(self)@.window_moved(index)
            } else {
                old(self)@
            },
    {
        if index >= self.windows.len() {
            return false;
        }
        if index == self.active_window {
            proof {
                crate::session_laws::lemma_moved_nowhere(self@);
            }
            return true;
        }
        let from: usize = self.active_window;
        let window = self.windows.remove(from);
        self.windows.insert(index, window);
        assert(self@.windows =~= old(self)@.windows.remove(from as int).insert(
            index as int,
            old(self)@.current(),
        ));
        self.last_window = match self.last_window {
            Some(last) => Some(remap_moved_index(last, from, index)),
            None => None,
        };
        self.active_window = index;
        true
    }

    /// Moves a pane from another window into the active one, beside its active
    /// pane. Where it was the only pane of its window, the window goes.
    pub fn join_pane_into_active(&mut self, source_window: usize, source_pane: usize) -> (result:
        bool)
        requires
            old(self)@.sound(),
        ensures
            result == old(self)@.can_join(source_window, source_pane),
            final(self)@ == if result {
                old(self)@.pane_joined(source_window, source_pane)
            } else {
                old(self)@
            },
    {
        if source_window >= self.windows.len() || source_window == self.active_window {
            return false;
        }
        assert(self@.windows[source_window as int].sound());
        let source_panes: usize = self.windows[source_window].panes.len();
        if source_pane >= source_panes {
            return false;
        }
        let ghost taken = self@.windows[source_window as int].panes[source_pane as int];
        let (pane, weight) = if source_panes == 1 {
            let mut source = self.windows.remove(source_window);
            assert(self@.windows =~= old(self)@.windows.remove(source_window as int));
            self.forget_removed_window(source_window);
            if source_window < self.active_window {
                self.active_window = self.active_window - 1;
            }
            match source.take_pane(0) {
                Some(parted) => parted,
                None => {
                    return false;
                },
            }
        } else {
            let ghost before = self@.windows[source_window as int];
            let parted = self.windows[source_window].take_pane(source_pane);
            assert(self@.windows =~= old(self)@.windows.update(
                source_window as int,
                before.pane_taken(source_pane),
            ));
            match parted {
                Some(parted) => parted,
                None => {
                    return false;
                },
            }
        };
        assert(pane == taken);
        proof {
            let parted = old(self)@.pane_parted(source_window, source_pane);
            assert(self@ =~= parted);
            assert(parted.current() == old(self)@.current());
            assert(old(self)@.current().sound());
        }
        let ghost parted = self@;
        let active: usize = self.active_window;
        self.windows[active].push_pane(pane, weight);
        assert(self@.windows =~= parted.windows.update(
            active as int,
            parted.current().pane_pushed(pane),
        ));
        true
    }

    fn swap_index(&self, direction: SwapDirection) -> (result: Option<usize>)
        requires
            self@.sound(),
        ensures
            result == self@.neighbor(direction),
    {
        match direction {
            SwapDirection::Previous => if self.active_window > 0 {
                Some(self.active_window - 1)
            } else {
                None
            },
            SwapDirection::Next => if self.active_window < self.windows.len() - 1 {
                Some(self.active_window + 1)
            } else {
                None
            },
        }
    }

    fn set_active_window(&mut self, index: usize)
        ensures
            final(self)@ == old(self)@.chosen(index),
    {
        if index != self.active_window {
            self.last_window = Some(self.active_window);
            self.active_window = index;
        }
    }

    fn remap_last_after_swap(&mut self, a: usize, b: usize)
        ensures
            final(self)@ == (SessionState {
                last: match old(self)@.last {
                    Some(last) => Some(index_after_swap(last, a, b)),
                    None => None,
                },
                ..old(self)@
            }),
    {
        self.last_window = match self.last_window {
            Some(last) => Some(
                if last == a {
                    b
                } else if last == b {
                    a
                } else {
                    last
                },
            ),
            None => None,
        };
    }

    pub fn bind_key(&mut self, key: char, command: BoundCommand)
        ensures
            final(self)@ == (SessionState {
                bindings: bound(old(self)@.bindings, key, command),
                ..old(self)@
            }),
    {
        let mut i: usize = 0;
        let ghost before = self.key_bindings@;
        assert(before.skip(0) =~= before);
        while i < self.key_bindings.len()
            invariant
                i <= self.key_bindings@.len(),
                self.key_bindings@ == before,
                before == old(self)@.bindings,
                self@ == old(self)@,
                bound(before, key, command) == before.take(i as int) + bound(
                    before.skip(i as int),
                    key,
                    command,
                ),
            decreases self.key_bindings@.len() - i,
        {
            if self.key_bindings[i].0 == key {
                self.key_bindings.set(i, (key, command));
                assert(self.key_bindings@ =~= before.take(i as int) + before.skip(
                    i as int,
                ).update(0, (key, command)));
                return;
            }
            assert(before.skip(i as int).skip(1) =~= before.skip(i + 1));
            assert(before.take(i as int) + (seq![before.skip(i as int)[0]] + bound(
                before.skip(i + 1),
                key,
                command,
            )) =~= before.take(i + 1) + bound(before.skip(i + 1), key, command));
            i = i + 1;
        }
        self.key_bindings.push((key, command));
        assert(self.key_bindings@ =~= before.take(i as int) + seq![(key, command)]);
    }

    /// The command that a key is bound to.
    pub fn command_bound_to(&self, key: char) -> (result: Option<BoundCommand>)
        ensures
            result == binding_of(self@.bindings, key),
    {
        let mut i: usize = 0;
        assert(self@.bindings.skip(0) =~= self@.bindings);
        while i < self.key_bindings.len()
            invariant
                i <= self.key_bindings@.len(),
                binding_of(self@.bindings, key) == binding_of(self@.bindings.skip(i as int), key),
            decreases self.key_bindings@.len() - i,
        {
            if self.key_bindings[i].0 == key {
                return Some(self.key_bindings[i].1);
            }
            assert(self@.bindings.skip(i as int).skip(1) =~= self@.bindings.skip(i + 1));
            i = i + 1;
        }
        None
    }
}

} // verus!
