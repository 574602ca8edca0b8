//! The multiplexer: what keys, the mouse, commands and ended terminals do to a
//! session. Terminals are started and written to by the program around it,
//! which is told what to do by the [`Effect`] of each request.

use std::collections::VecDeque;

use vstd::prelude::*;
#[allow(unused_imports)]
use vstd::string::*;

use crate::error::Error;
use crate::geometry::{rect_contains, Rect};
use crate::keys::{
    encode_key, key_matches_byte, prefix_command, terminal_shortcut, KeyCode, KeyEvent,
    KeyModifiers, PrefixCommand, TerminalShortcut,
};
use crate::layout::EVEN_PANE_WEIGHT;
use crate::paste::paste_input;
use crate::protocol::{
    key_modifiers, BoundCommand, CursorView, ResizeDirection, SplitAxis, SwapDirection, TtySize,
    WireMouse, WireMouseButton, WireMouseKind,
};
use crate::render::{status_session_label, status_window_label, STATUS_ROWS};
use crate::session::Session;
#[allow(unused_imports)]
use crate::session::{optional_text, SessionState};
#[allow(unused_imports)]
use crate::state::{
    done, first_pane_size, in_order, inside, inside_at, is_pane, nearest, outcome, pane_index,
    panes_area, put_in_order, rect_at, selects_text, shown_writes, tab_at, EffectState, KeyMeaning,
    PurposeState, RmuxState, SpawnState,
};
use crate::state::{
    Effect, ExitReason, Selection, SpawnPurpose, SpawnRequest, MAX_WINDOWS_PER_SESSION,
    WHEEL_LINES,
};
use crate::text::decimal_string;
use crate::width::text_width;
use crate::window::{window_name, Pane, Window, MIN_PANE_COLS, MIN_PANE_ROWS};
#[allow(unused_imports)]
use crate::window::{default_window_name, window_of, WindowState};

verus! {

#[derive(Debug)]
pub struct Rmux {
    pub session: Session,
    pub next_pane_id: u64,
    pub next_window_id: u64,
    pub prefix: bool,
    pub messages: VecDeque<String>,
    pub tty_size: TtySize,
    pub exit_reason: Option<ExitReason>,
    pub detach_generation: u64,
    pub selection: Option<Selection>,
}

impl View for Rmux {
    type V = RmuxState;

    open spec fn view(&self) -> RmuxState {
        RmuxState {
            session: self.session@,
            next_pane_id: self.next_pane_id,
            next_window_id: self.next_window_id,
            prefix: self.prefix,
            messages: crate::render::texts(self.messages@),
            tty_size: self.tty_size,
            exit_reason: self.exit_reason,
            detach_generation: self.detach_generation,
            selection: self.selection,
        }
    }
}

/// A text that may be missing, as a mathematical value.
pub open spec fn optional_str(text: Option<&str>) -> Option<Seq<char>> {
    match text {
        Some(text) => Some(text@),
        None => None,
    }
}

/// The multiplexer with one window of one pane.
pub open spec fn started(tty_size: TtySize, session_name: Seq<char>) -> RmuxState {
    RmuxState {
        session: SessionState {
            name: session_name,
            default_command: None,
            prefix_key: crate::session::DEFAULT_PREFIX_KEY,
            bindings: seq![],
            windows: seq![
                window_of(
                    1,
                    default_window_name(1),
                    Pane { id: 1, size: first_pane_size(tty_size), last_rect: None },
                    EVEN_PANE_WEIGHT,
                ),
            ],
            active: 0,
            last: None,
        },
        next_pane_id: 2,
        next_window_id: 2,
        prefix: false,
        messages: seq!["split: ^D/^Shift-D  click pane  detach: d  quit: q"@],
        tty_size,
        exit_reason: None,
        detach_generation: 0,
        selection: None,
    }
}

/// The size of the terminal of a window's first pane.
pub fn new_pane_size(tty_size: TtySize) -> (result: TtySize)
    ensures
        result == first_pane_size(tty_size),
{
    let cols: u16 = tty_size.cols.saturating_sub(2);
    let rows: u16 = tty_size.rows.saturating_sub(STATUS_ROWS + 2);
    TtySize {
        cols: if cols > MIN_PANE_COLS {
            cols
        } else {
            MIN_PANE_COLS
        },
        rows: if rows > MIN_PANE_ROWS {
            rows
        } else {
            MIN_PANE_ROWS
        },
    }
}

/// Whether the left button is used with shift held.
fn is_text_selection(mouse: WireMouse) -> (result: bool)
    ensures
        result == selects_text(mouse),
{
    match mouse.kind {
        WireMouseKind::Down(WireMouseButton::Left)
        | WireMouseKind::Up(WireMouseButton::Left)
        | WireMouseKind::Drag(WireMouseButton::Left) => key_modifiers(mouse.modifiers).shift,
        _ => false,
    }
}

/// What a terminal has to be told of the mouse, where it wants to hear of it.
#[derive(Debug, Clone, Copy)]
pub struct MouseReport {
    pub pane_id: u64,
    pub kind: WireMouseKind,
    pub position: CursorView,
    pub modifiers: KeyModifiers,
}

impl Rmux {
    /// A session whose first pane, with id 1, has a terminal of the size that
    /// [`new_pane_size`] gives.
    pub fn new(tty_size: TtySize, session_name: String) -> (result: Rmux)
        ensures
            result@ == started(tty_size, session_name@),
            result@.sound(),
    {
        let size = new_pane_size(tty_size);
        let pane = Pane::new(1, size);
        let window = Window::new(1, pane);
        let mut app = Rmux {
            session: Session::new(session_name, window),
            next_pane_id: 2,
            next_window_id: 2,
            prefix: false,
            messages: VecDeque::new(),
            tty_size,
            exit_reason: None,
            detach_generation: 0,
            selection: None,
        };
        app.message("split: ^D/^Shift-D  click pane  detach: d  quit: q".to_string());
        proof {
            let first = window_of(1, default_window_name(1), pane, EVEN_PANE_WEIGHT);
            assert(app@ =~= started(tty_size, session_name@));
            crate::soundness::lemma_single_window(
                1,
                default_window_name(1),
                pane,
                EVEN_PANE_WEIGHT,
                2,
            );
            assert(app@.session.windows =~= seq![first]);
        }
        app
    }

    fn message(&mut self, message: String)
        ensures
            final(self)@ == old(self)@.saying(message@),
    {
        if self.messages.len() > 4 {
            let _ = self.messages.pop_front();
            assert(crate::render::texts(self.messages@) =~= old(self)@.messages.skip(1));
        }
        let ghost kept = self.messages@;
        self.messages.push_back(message);
        assert(crate::render::texts(self.messages@) =~= crate::render::texts(kept).push(message@));
        assert(self@ =~= old(self)@.saying(message@));
    }

    pub fn resize(&mut self, tty_size: TtySize)
        requires
            old(self)@.sound(),
        ensures
            final(self)@ == (RmuxState { tty_size, ..old(self)@ }),
            final(self)@.sound(),
    {
        self.tty_size = tty_size;
    }

    pub fn take_exit_reason(&mut self) -> (result: Option<ExitReason>)
        requires
            old(self)@.sound(),
        ensures
            result == old(self)@.exit_reason,
            final(self)@ == (RmuxState { exit_reason: None, ..old(self)@ }),
            final(self)@.sound(),
    {
        self.exit_reason.take()
    }

    pub fn detach_generation(&self) -> (result: u64)
        ensures
            result == self@.detach_generation,
    {
        self.detach_generation
    }

    /// Lets go of what is selected.
    pub fn clear_selection(&mut self)
        requires
            old(self)@.sound(),
        ensures
            final(self)@ == (RmuxState { selection: None, ..old(self)@ }),
            final(self)@.sound(),
    {
        self.selection = None;
    }

    /// Whether there is an id left for another pane.
    pub fn has_pane_id(&self) -> (result: bool)
        ensures
            result == self@.has_pane_id(),
    {
        (self.next_pane_id as u128) < usize::MAX as u128 - 1 && self.next_pane_id < u64::MAX
    }

    /// Whether there are ids for a new window and its pane, where the session may
    /// be given one.
    pub fn can_open_window(&self) -> (result: bool)
        ensures
            result == self@.can_open_window(),
    {
        proof {
            self.session.lemma_counted();
        }
        self.session.windows.len() >= MAX_WINDOWS_PER_SESSION || (self.has_pane_id()
            && self.next_window_id < u64::MAX)
    }

    /// Whether there is an id for the window of its own that the active pane is
    /// moved into, where it is not the only pane.
    pub fn can_break(&self) -> (result: bool)
        requires
            self@.sound(),
        ensures
            result == self@.can_break(),
    {
        proof {
            crate::soundness::lemma_session_sound(self@);
        }
        self.session.active_window().panes.len() <= 1 || self.next_window_id < u64::MAX
    }

    /// Whether there is a pane to type into.
    pub fn can_type(&self) -> (result: bool)
        requires
            self@.sound(),
        ensures
            result == self@.can_type(),
    {
        proof {
            crate::soundness::lemma_session_sound(self@);
        }
        let window = self.session.active_window();
        window.synchronize_panes || window.panes.len() > 0
    }

    /// Whether there is a pane to split, and an id for the new one.
    pub fn can_split(&self) -> (result: bool)
        requires
            self@.sound(),
        ensures
            result == self@.can_split(),
    {
        proof {
            crate::soundness::lemma_session_sound(self@);
        }
        self.session.active_window().panes.len() > 0 && self.has_pane_id()
    }

    /// Whether there is what a key acts on.
    pub fn can_handle_key(&self, key: KeyEvent) -> (result: bool)
        requires
            self@.sound(),
        ensures
            result == self@.can_take(self@.key_meaning(key)),
    {
        if key_matches_byte(key, self.session.prefix_key) {
            return !self.prefix || self.can_type();
        }
        if self.prefix {
            return match self.bound_command_for_key(key) {
                Some(BoundCommand::SplitHorizontal) => self.can_split(),
                Some(BoundCommand::SplitVertical) => self.can_split(),
                Some(BoundCommand::NewWindow) => self.can_open_window(),
                Some(_) => true,
                None => match prefix_command(key) {
                    PrefixCommand::SplitHorizontal => self.can_split(),
                    PrefixCommand::SplitVertical => self.can_split(),
                    PrefixCommand::NewWindow => self.can_open_window(),
                    _ => true,
                },
            };
        }
        match terminal_shortcut(key) {
            Some(TerminalShortcut::Split(_)) => self.can_split(),
            Some(TerminalShortcut::NewWindow) => self.can_open_window(),
            Some(_) => true,
            None => encode_key(key).len() == 0 || self.can_type(),
        }
    }

    /// Does what a key means: after the prefix key, or without it.
    pub fn handle_key(&mut self, key: KeyEvent) -> (result: Result<Effect, Error>)
        requires
            old(self)@.sound(),
            old(self)@.can_take(old(self)@.key_meaning(key)),
        ensures
            (final(self)@, outcome(result)) == old(self)@.key_handled(key),
            final(self)@.sound(),
            result matches Ok(Effect::Spawn(request)) ==> final(self)@.awaits(request@),
    {
        let prefix_key: u8 = self.session.prefix_key;
        if self.prefix {
            self.prefix = false;
            assert(self@ == RmuxState { prefix: false, ..old(self)@ });
            if key_matches_byte(key, prefix_key) {
                return Ok(self.send_prefix());
            }
            return match self.bound_command_for_key(key) {
                Some(command) => self.run_bound_command(command),
                None => self.run_prefix_command(prefix_command(key)),
            };
        }
        if key_matches_byte(key, prefix_key) {
            self.prefix = true;
            return Ok(Effect::Nothing);
        }
        if let Some(shortcut) = terminal_shortcut(key) {
            return self.run_terminal_shortcut(shortcut);
        }
        let bytes = encode_key(key);
        if bytes.len() > 0 {
            return Ok(self.write_active(bytes));
        }
        Ok(Effect::Nothing)
    }

    fn run_prefix_command(&mut self, command: PrefixCommand) -> (result: Result<Effect, Error>)
        requires
            old(self)@.sound(),
            old(self)@.can_take(KeyMeaning::Prefixed(command)),
        ensures
            (final(self)@, outcome(result)) == old(self)@.prefixed_run(command),
            final(self)@.sound(),
            result matches Ok(Effect::Spawn(request)) ==> final(self)@.awaits(request@),
    {
        match command {
            PrefixCommand::SplitHorizontal => self.split_window(SplitAxis::Horizontal, None),
            PrefixCommand::SplitVertical => self.split_window(SplitAxis::Vertical, None),
            PrefixCommand::NewWindow => self.new_window(None, None),
            PrefixCommand::NextPane => {
                self.next_pane();
                Ok(Effect::Nothing)
            },
            PrefixCommand::PreviousPane => {
                self.previous_pane();
                Ok(Effect::Nothing)
            },
            PrefixCommand::LastWindow => {
                if !self.last_window() {
                    self.message("no last window".to_string());
                }
                Ok(Effect::Nothing)
            },
            PrefixCommand::ToggleLayout => {
                self.toggle_layout();
                Ok(Effect::Nothing)
            },
            PrefixCommand::Resize(direction) => {
                if !self.resize_active_pane(direction, 1) {
                    self.message("pane cannot be resized".to_string());
                }
                Ok(Effect::Nothing)
            },
            PrefixCommand::SwapPane(direction) => {
                if !self.swap_active_pane(direction) {
                    self.message("pane cannot be swapped".to_string());
                }
                Ok(Effect::Nothing)
            },
            PrefixCommand::KillPane => {
                self.kill_or_keep_pane();
                Ok(Effect::Nothing)
            },
            PrefixCommand::Detach => {
                self.exit_reason = Some(ExitReason::Detach);
                Ok(Effect::Nothing)
            },
            PrefixCommand::Quit => {
                self.exit_reason = Some(ExitReason::Quit);
                Ok(Effect::Nothing)
            },
            PrefixCommand::SelectWindow(digit) => {
                self.select_window_digit(digit);
                Ok(Effect::Nothing)
            },
            PrefixCommand::Unknown => {
                self.message("unknown prefix command".to_string());
                Ok(Effect::Nothing)
            },
        }
    }

    fn run_bound_command(&mut self, command: BoundCommand) -> (result: Result<Effect, Error>)
        requires
            old(self)@.sound(),
            old(self)@.can_take(KeyMeaning::Bound(command)),
        ensures
            (final(self)@, outcome(result)) == old(self)@.bound_run(command),
            final(self)@.sound(),
            result matches Ok(Effect::Spawn(request)) ==> final(self)@.awaits(request@),
    {
        match command {
            BoundCommand::SplitHorizontal => self.split_window(SplitAxis::Horizontal, None),
            BoundCommand::SplitVertical => self.split_window(SplitAxis::Vertical, None),
            BoundCommand::NewWindow => self.new_window(None, None),
            BoundCommand::NextPane => {
                self.next_pane();
                Ok(Effect::Nothing)
            },
            BoundCommand::PreviousPane => {
                self.previous_pane();
                Ok(Effect::Nothing)
            },
            BoundCommand::KillPane => {
                self.kill_or_keep_pane();
                Ok(Effect::Nothing)
            },
            BoundCommand::DetachClient => {
                self.exit_reason = Some(ExitReason::Detach);
                Ok(Effect::Nothing)
            },
            BoundCommand::LastWindow => {
                if !self.last_window() {
                    self.message("no last window".to_string());
                }
                Ok(Effect::Nothing)
            },
            BoundCommand::ToggleLayout => {
                self.toggle_layout();
                Ok(Effect::Nothing)
            },
        }
    }

    fn run_terminal_shortcut(&mut self, shortcut: TerminalShortcut) -> (result: Result<
        Effect,
        Error,
    >)
        requires
            old(self)@.sound(),
            old(self)@.can_take(KeyMeaning::Shortcut(shortcut)),
        ensures
            (final(self)@, outcome(result)) == old(self)@.shortcut_run(shortcut),
            final(self)@.sound(),
            result matches Ok(Effect::Spawn(request)) ==> final(self)@.awaits(request@),
    {
        match shortcut {
            TerminalShortcut::Split(axis) => self.split_window(axis, None),
            TerminalShortcut::ClosePane => {
                self.kill_or_keep_pane();
                Ok(Effect::Nothing)
            },
            TerminalShortcut::NewWindow => self.new_window(None, None),
            TerminalShortcut::SelectWindow(index) => {
                if !self.select_window(index) {
                    self.message(
                        "window ".to_string().concat(
                            decimal_string(index as u128 + 1).as_str(),
                        ).concat(" does not exist"),
                    );
                }
                Ok(Effect::Nothing)
            },
        }
    }

    fn kill_or_keep_pane(&mut self)
        requires
            old(self)@.sound(),
        ensures
            done(final(self)@) == old(self)@.pane_killed_or_kept(),
            final(self)@.sound(),
    {
        if !self.kill_active_pane() {
            self.message("last pane kept alive".to_string());
        }
    }

    /// Types bytes into the active pane, or into all of them where the window
    /// has them synchronized.
    pub fn write_active(&self, bytes: Vec<u8>) -> (result: Effect)
        requires
            self@.sound(),
            self@.can_type(),
        ensures
            result@ == self@.typed(bytes@),
    {
        proof {
            crate::soundness::lemma_session_sound(self@);
        }
        Effect::Input {
            panes: self.session.active_window().input_targets(),
            bytes,
            to_bottom: true,
        }
    }

    /// What each pane that is pasted into writes. `bracketed` are the panes whose
    /// programs asked to be told where a paste starts and ends.
    pub fn paste_active(&self, bytes: &[u8], bracketed: &Vec<u64>) -> (result: Vec<(u64, Vec<u8>)>)
        requires
            self@.sound(),
            self@.can_type(),
        ensures
            shown_writes(result@) == self@.pasted(bytes@, bracketed@),
    {
        let mut writes: Vec<(u64, Vec<u8>)> = Vec::new();
        if bytes.len() == 0 {
            assert(shown_writes(writes@) =~= seq![]);
            return writes;
        }
        proof {
            crate::soundness::lemma_session_sound(self@);
        }
        let panes = self.session.active_window().input_targets();
        let mut i: usize = 0;
        while i < panes.len()
            invariant
                i <= panes@.len(),
                panes@ == self@.current().input_panes(),
                writes@.len() == i,
                bytes@.len() > 0,
                forall|j: int|
                    0 <= j < writes@.len() ==> {
                        &&& (#[trigger] writes@[j]).0 == panes@[j]
                        &&& crate::paste::paste_bytes(
                            bytes@,
                            bracketed@.contains(writes@[j].0),
                        ) == Some(writes@[j].1@)
                    },
            decreases panes@.len() - i,
        {
            if let Some(payload) = paste_input(bytes, holds_id(bracketed, panes[i])) {
                writes.push((panes[i], payload));
            }
            i = i + 1;
        }
        assert(shown_writes(writes@) =~= self@.pasted(bytes@, bracketed@));
        writes
    }

    /// Types the prefix key itself.
    pub fn send_prefix(&self) -> (result: Effect)
        requires
            self@.sound(),
            self@.can_type(),
        ensures
            result@ == self@.typed(seq![self@.session.prefix_key]),
    {
        let bytes = vec![self.session.prefix_key];
        assert(bytes@ =~= seq![self@.session.prefix_key]);
        self.write_active(bytes)
    }

    /// Begins a new window: the terminal that it asks for is to be started.
    pub fn new_window(&mut self, name: Option<String>, command: Option<&str>) -> (result: Result<
        Effect,
        Error,
    >)
        requires
            old(self)@.sound(),
            old(self)@.can_open_window(),
        ensures
            (final(self)@, outcome(result)) == old(self)@.window_requested(
                optional_text(name),
                optional_str(command),
            ),
            final(self)@.sound(),
            result matches Ok(Effect::Spawn(request)) ==> final(self)@.awaits(request@),
    {
        proof {
            self.session.lemma_counted();
        }
        if self.session.windows.len() >= MAX_WINDOWS_PER_SESSION {
            return Err(Error::WindowLimit);
        }
        let id: u64 = self.next_window_id;
        let pane_id: u64 = self.next_pane_id;
        proof {
            crate::soundness::lemma_numbered_up(self@);
        }
        self.next_window_id = id + 1;
        self.next_pane_id = pane_id + 1;
        Ok(
            Effect::Spawn(
                SpawnRequest {
                    purpose: SpawnPurpose::NewWindow { id, name },
                    pane_id,
                    size: new_pane_size(self.tty_size),
                    command: self.effective_command(command),
                },
            ),
        )
    }

    /// Begins to split the active pane: the terminal that it asks for is to be
    /// started.
    pub fn split_window(&mut self, axis: SplitAxis, command: Option<&str>) -> (result: Result<
        Effect,
        Error,
    >)
        requires
            old(self)@.sound(),
            old(self)@.can_split(),
        ensures
            (final(self)@, outcome(result)) == old(self)@.split_requested(
                axis,
                optional_str(command),
            ),
            final(self)@.sound(),
            result matches Ok(Effect::Spawn(request)) ==> final(self)@.awaits(request@),
    {
        proof {
            crate::soundness::lemma_session_sound(self@);
            crate::soundness::lemma_split_requested(self@, axis);
        }
        let pane_id: u64 = self.next_pane_id;
        let size = self.session.active_window().active_pane().size;
        let command = self.effective_command(command);
        self.next_pane_id = pane_id + 1;
        let ghost numbered = self@;
        assert(numbered == RmuxState {
            next_pane_id: (old(self)@.next_pane_id + 1) as u64,
            ..old(self)@
        });
        let pending = self.session.active_window_mut().begin_split(axis);
        match pending {
            Some(pending) => {
                assert(self@ =~= numbered.with_current(old(self)@.current().split_begun(axis)));
                Ok(
                    Effect::Spawn(
                        SpawnRequest {
                            purpose: SpawnPurpose::Split(pending),
                            pane_id,
                            size,
                            command,
                        },
                    ),
                )
            },
            None => {
                assert(self@ =~= numbered);
                Err(Error::SplitPane { pane_id })
            },
        }
    }

    /// Ends what a request for a terminal began, once the terminal was started
    /// or could not be.
    pub fn finish_spawn(&mut self, request: SpawnRequest, started: bool) -> (result: Result<
        (),
        Error,
    >)
        requires
            old(self)@.sound(),
            old(self)@.awaits(request@),
        ensures
            (final(self)@, result) == old(self)@.spawn_finished(request@, started),
            final(self)@.sound(),
    {
        let ghost before = self@;
        let pane = Pane::new(request.pane_id, request.size);
        proof {
            crate::soundness::lemma_session_sound(self@);
        }
        match request.purpose {
            SpawnPurpose::Split(pending) => {
                if !started {
                    return Err(Error::SplitPane { pane_id: request.pane_id });
                }
                proof {
                    crate::soundness::lemma_split_finished(
                        before,
                        pending.axis,
                        pending.at,
                        pending.placed,
                        pane,
                    );
                }
                self.session.active_window_mut().finish_split(pending, pane);
                assert(self@ =~= before.spawn_finished(request@, true).0);
            },
            SpawnPurpose::NewWindow { id, name } => {
                if !started {
                    return Err(Error::SpawnTerminal);
                }
                let name = match name {
                    Some(name) => name,
                    None => window_name(id),
                };
                let ghost named = name@;
                self.session.push_window(Window::from_pane(id, name, pane, EVEN_PANE_WEIGHT));
                proof {
                    crate::soundness::lemma_single_window(
                        id,
                        named,
                        pane,
                        EVEN_PANE_WEIGHT,
                        before.next_pane_id as nat,
                    );
                    let window = window_of(id, named, pane, EVEN_PANE_WEIGHT);
                    assert forall|i: int| 0 <= i < window.panes.len() implies (
                    #[trigger] window.panes[i]).id < before.next_pane_id
                        && crate::soundness::id_unused(
                        before.session.windows,
                        window.panes[i].id,
                    ) by {
                        assert(window.panes[i] == pane);
                    }
                    self.session.lemma_counted();
                    crate::soundness::lemma_window_pushed(before, window);
                }
                assert(self@ =~= before.spawn_finished(request@, true).0);
            },
            SpawnPurpose::RespawnPane => {
                if !started {
                    return Err(Error::RespawnTerminal);
                }
                proof {
                    let window = before.current();
                    let after = before.spawn_finished(request@, true).0.current();
                    assert(after.panes.len() == window.panes.len());
                    crate::soundness::lemma_same_ids(before, after.panes);
                    assert(crate::window_laws::kept(
                        before.session.windows[before.session.active as int],
                        before.next_pane_id as nat,
                    ));
                    crate::soundness::lemma_current_changed(before, after);
                }
                self.session.active_window_mut().respawn_active_pane();
                assert(self@ =~= before.spawn_finished(request@, true).0);
            },
            SpawnPurpose::RespawnWindow => {
                if !started {
                    return Err(Error::SpawnTerminal);
                }
                proof {
                    crate::soundness::lemma_restarted(before, pane);
                }
                self.session.active_window_mut().respawn(pane);
                assert(self@ =~= before.spawn_finished(request@, true).0);
            },
        }
        Ok(())
    }

    pub fn select_window(&mut self, index: usize) -> (result: bool)
        requires
            old(self)@.sound(),
        ensures
            result == (index < old(self)@.session.windows.len()),
            final(self)@ == if result {
                RmuxState { session: old(self)@.session.chosen(index), ..old(self)@ }
            } else {
                old(self)@
            },
            final(self)@.sound(),
    {
        self.session.select_window(index)
    }

    pub fn next_window(&mut self)
        requires
            old(self)@.sound(),
        ensures
            final(self)@ == (RmuxState {
                session: old(self)@.session.chosen(old(self)@.session.next_index()),
                ..old(self)@
            }),
            final(self)@.sound(),
    {
        proof {
            crate::soundness::lemma_session_sound(self@);
            self.session.lemma_counted();
        }
        self.session.next_window();
    }

    pub fn previous_window(&mut self)
        requires
            old(self)@.sound(),
        ensures
            final(self)@ == (RmuxState {
                session: old(self)@.session.chosen(old(self)@.session.previous_index()),
                ..old(self)@
            }),
            final(self)@.sound(),
    {
        proof {
            crate::soundness::lemma_session_sound(self@);
            self.session.lemma_counted();
        }
        self.session.previous_window();
    }

    /// Goes back to the window that was active before, where there is one.
    pub fn last_window(&mut self) -> (result: bool)
        requires
            old(self)@.sound(),
        ensures
            result == (old(self)@.session.last_index() is Some),
            final(self)@ == match old(self)@.session.last_index() {
                Some(last) => RmuxState { session: old(self)@.session.chosen(last), ..old(self)@ },
                None => old(self)@,
            },
            final(self)@.sound(),
    {
        self.session.last_window()
    }

    pub fn select_pane(&mut self, index: usize) -> (result: bool)
        requires
            old(self)@.sound(),
        ensures
            result == (index < old(self)@.current().panes.len()),
            final(self)@ == if result {
                old(self)@.pane_chosen(index)
            } else {
                old(self)@
            },
            final(self)@.sound(),
    {
        let ghost before = self@;
        proof {
            crate::soundness::lemma_session_sound(before);
            if index < before.current().panes.len() {
                crate::soundness::lemma_current_touched(
                    before,
                    WindowState { active: index, ..before.current() },
                );
            }
        }
        let selected = self.session.active_window_mut().select_pane(index);
        proof {
            if selected {
                assert(self@ =~= before.pane_chosen(index));
            } else {
                assert(self@ =~= before);
            }
        }
        selected
    }

    /// Where the panes lie on the screen.
    fn area(&self) -> (result: Rect)
        ensures
            result == panes_area(self@.tty_size),
    {
        Rect {
            x: 0,
            y: 0,
            width: self.tty_size.cols,
            height: self.tty_size.rows.saturating_sub(STATUS_ROWS),
        }
    }

    /// Selects the pane that a place of the screen belongs to.
    pub fn select_pane_at(&mut self, col: u16, row: u16) -> (result: bool)
        requires
            old(self)@.sound(),
        ensures
            (final(self)@, result) == old(self)@.pane_chosen_at(col, row),
            final(self)@.sound(),
    {
        if row >= self.tty_size.rows.saturating_sub(STATUS_ROWS) {
            return false;
        }
        proof {
            crate::soundness::lemma_session_sound(self@);
        }
        let rects = self.session.active_window().layout_rects(self.area());
        proof {
            crate::layout::lemma_placed_len(
                self@.current().layout,
                panes_area(self@.tty_size),
                Seq::new(self@.current().panes.len(), |i: int| panes_area(self@.tty_size)),
            );
        }
        let mut i: usize = 0;
        while i < rects.len()
            invariant
                i <= rects@.len(),
                self@ == old(self)@,
                self@.sound(),
                rects@ == self@.rects(),
                rects@.len() == self@.current().panes.len(),
                !self@.in_status(row),
                rect_at(rects@, 0, col, row) == rect_at(rects@, i as int, col, row),
            decreases rects@.len() - i,
        {
            if rect_contains(rects[i], col, row) {
                return self.select_pane(i);
            }
            i = i + 1;
        }
        false
    }

    /// The pane inside which a place of the screen lies, and the place in cells of
    /// the pane's own screen.
    fn mouse_target(&self, col: u16, row: u16) -> (result: Option<(usize, CursorView)>)
        requires
            self@.sound(),
        ensures
            match self@.pane_inside(col, row) {
                Some(pane) => {
                    &&& result == Some((pane, self@.cell_in(pane, col, row)))
                    &&& pane < self@.current().panes.len()
                },
                None => result is None,
            },
    {
        if row >= self.tty_size.rows.saturating_sub(STATUS_ROWS) {
            return None;
        }
        proof {
            crate::soundness::lemma_session_sound(self@);
            crate::layout::lemma_placed_len(
                self@.current().layout,
                panes_area(self@.tty_size),
                Seq::new(self@.current().panes.len(), |i: int| panes_area(self@.tty_size)),
            );
        }
        let rects = self.session.active_window().layout_rects(self.area());
        let framed = rects.len() > 1;
        let mut i: usize = 0;
        while i < rects.len()
            invariant
                i <= rects@.len(),
                rects@ == self@.rects(),
                rects@.len() == self@.current().panes.len(),
                framed == self@.framed(),
                !self@.in_status(row),
                inside_at(rects@, framed, 0, col, row) == inside_at(
                    rects@,
                    framed,
                    i as int,
                    col,
                    row,
                ),
            decreases rects@.len() - i,
        {
            let inner = inner_rect(rects[i], framed);
            if rect_contains(rects[i], col, row) && rect_contains(inner, col, row) {
                return Some(
                    (
                        i,
                        CursorView { col: (col - inner.x) as usize, row: (row - inner.y) as usize },
                    ),
                );
            }
            i = i + 1;
        }
        None
    }

    /// The selection that is being made, where the mouse now belongs to it.
    fn dragged_selection(&self, kind: WireMouseKind) -> (result: Option<Selection>)
        ensures
            result == self@.dragged(kind),
    {
        match self.selection {
            Some(selection) => {
                let follows = match kind {
                    WireMouseKind::Drag(WireMouseButton::Left) => true,
                    WireMouseKind::Up(WireMouseButton::Left) => true,
                    _ => false,
                };
                if selection.dragging && follows {
                    Some(selection)
                } else {
                    None
                }
            },
            None => None,
        }
    }

    /// What the terminal under the mouse has to be told, should it want to hear
    /// of it. The left button belongs to the multiplexer with shift held, and
    /// while a selection is being made.
    pub fn mouse_report(&self, mouse: WireMouse) -> (result: Option<MouseReport>)
        requires
            self@.sound(),
        ensures
            match self@.reported_pane(mouse) {
                Some(pane) => {
                    &&& pane < self@.current().panes.len()
                    &&& result == Some(
                        MouseReport {
                            pane_id: self@.current().panes[pane as int].id,
                            kind: mouse.kind,
                            position: self@.cell_in(pane, mouse.col, mouse.row),
                            modifiers: crate::protocol::modifiers_from_bits(mouse.modifiers),
                        },
                    )
                },
                None => result is None,
            },
    {
        if self.dragged_selection(mouse.kind).is_some() || is_text_selection(mouse) {
            return None;
        }
        let modifiers = key_modifiers(mouse.modifiers);
        match self.mouse_target(mouse.col, mouse.row) {
            Some((pane, position)) => {
                proof {
                    crate::soundness::lemma_session_sound(self@);
                }
                Some(
                    MouseReport {
                        pane_id: self.session.active_window().panes[pane].id,
                        kind: mouse.kind,
                        position,
                        modifiers,
                    },
                )
            },
            None => None,
        }
    }

    /// Does what the mouse means. `report` is what the terminal that
    /// [`Rmux::mouse_report`] names wants to be sent, where it wants anything.
    /// `None` where the mouse means nothing.
    pub fn handle_mouse(&mut self, mouse: WireMouse, report: Option<Vec<u8>>) -> (result: Option<
        Effect,
    >)
        requires
            old(self)@.sound(),
        ensures
            ({
                let bytes = match report {
                    Some(bytes) => Some(bytes@),
                    None => None,
                };
                let (state, effect) = old(self)@.mouse_handled(mouse, bytes);
                &&& final(self)@ == state
                &&& match result {
                    Some(done) => effect == Some(done@),
                    None => effect is None,
                }
            }),
            final(self)@.sound(),
    {
        if let Some(selection) = self.dragged_selection(mouse.kind) {
            self.follow_selection(selection, mouse);
            return Some(Effect::Nothing);
        }
        let target = self.mouse_target(mouse.col, mouse.row);
        proof {
            crate::soundness::lemma_session_sound(self@);
        }
        if let (Some((pane, _)), Some(bytes)) = (target, report) {
            if !is_text_selection(mouse) {
                if let WireMouseKind::Down(_) = mouse.kind {
                    self.selection = None;
                }
                let ghost cleared = self@;
                self.select_pane(pane);
                let window = self.session.active_window();
                return Some(
                    Effect::Report { pane_id: window.panes[pane].id, bytes, to_bottom: false },
                );
            }
        }
        match mouse.kind {
            WireMouseKind::Down(WireMouseButton::Left) => {
                if self.press(mouse.col, mouse.row) {
                    Some(Effect::Nothing)
                } else {
                    None
                }
            },
            WireMouseKind::ScrollUp => self.wheel(target, true),
            WireMouseKind::ScrollDown => self.wheel(target, false),
            _ => None,
        }
    }

    /// The scrolling of the pane under the mouse.
    fn wheel(&self, target: Option<(usize, CursorView)>, up: bool) -> (result: Option<Effect>)
        requires
            self@.sound(),
            target matches Some((pane, _)) ==> pane < self@.current().panes.len(),
        ensures
            match target {
                Some((pane, _)) => result matches Some(effect) && effect@ == EffectState::Scroll {
                    pane_id: self@.current().panes[pane as int].id,
                    up,
                    lines: WHEEL_LINES,
                },
                None => result is None,
            },
    {
        match target {
            Some((pane, _)) => {
                proof {
                    crate::soundness::lemma_session_sound(self@);
                }
                let pane_id: u64 = self.session.active_window().panes[pane].id;
                Some(Effect::Scroll { pane_id, up, lines: WHEEL_LINES })
            },
            None => None,
        }
    }

    /// A press of the left button that no terminal wanted.
    fn press(&mut self, col: u16, row: u16) -> (result: bool)
        requires
            old(self)@.sound(),
        ensures
            (final(self)@, result) == old(self)@.pressed(col, row),
            final(self)@.sound(),
    {
        if row >= self.tty_size.rows.saturating_sub(STATUS_ROWS) {
            return self.select_window_at_status(col);
        }
        match self.mouse_target(col, row) {
            Some((pane, cell)) => {
                proof {
                    crate::soundness::lemma_session_sound(self@);
                }
                let pane_id: u64 = self.session.active_window().panes[pane].id;
                self.selection = Some(
                    Selection {
                        pane_id,
                        anchor: cell,
                        head: cell,
                        dragging: true,
                        moved: false,
                        fresh: false,
                    },
                );
                self.select_pane(pane)
            },
            None => self.select_pane_at(col, row),
        }
    }

    /// Follows the mouse with the selection that is being made.
    fn follow_selection(&mut self, selection: Selection, mouse: WireMouse)
        requires
            old(self)@.sound(),
        ensures
            final(self)@ == old(self)@.selection_moved(selection, mouse),
            final(self)@.sound(),
    {
        if let WireMouseKind::Drag(WireMouseButton::Left) = mouse.kind {
            proof {
                crate::soundness::lemma_session_sound(self@);
                crate::layout::lemma_placed_len(
                    self@.current().layout,
                    panes_area(self@.tty_size),
                    Seq::new(self@.current().panes.len(), |i: int| panes_area(self@.tty_size)),
                );
            }
            let window = self.session.active_window();
            if let Some(pane) = find_pane(&window.panes, selection.pane_id) {
                let rects = window.layout_rects(self.area());
                let inner = inner_rect(rects[pane], rects.len() > 1);
                self.selection = Some(
                    Selection {
                        pane_id: selection.pane_id,
                        anchor: selection.anchor,
                        head: CursorView {
                            col: nearest_offset(mouse.col, inner.x, inner.width),
                            row: nearest_offset(mouse.row, inner.y, inner.height),
                        },
                        dragging: selection.dragging,
                        moved: true,
                        fresh: selection.fresh,
                    },
                );
            }
        } else if selection.moved {
            self.selection = Some(
                Selection {
                    pane_id: selection.pane_id,
                    anchor: selection.anchor,
                    head: selection.head,
                    dragging: false,
                    moved: true,
                    fresh: true,
                },
            );
        } else {
            self.selection = None;
        }
    }

    /// Selects the window whose label in the status bar a column lies in.
    fn select_window_at_status(&mut self, col: u16) -> (result: bool)
        requires
            old(self)@.sound(),
        ensures
            ({
                let tab = tab_at(
                    old(self)@.session.windows,
                    0,
                    crate::width::shown_columns(
                        crate::render::session_label(old(self)@.session.name),
                    ),
                    col,
                );
                &&& result == (tab is Some)
                &&& final(self)@ == match tab {
                    Some(index) => RmuxState {
                        session: old(self)@.session.chosen(index),
                        ..old(self)@
                    },
                    None => old(self)@,
                }
            }),
            final(self)@.sound(),
    {
        let mut x: u16 = text_width(status_session_label(self.session.name.as_str()).as_str());
        let mut i: usize = 0;
        let ghost start = x;
        let ghost windows = self@.session.windows;
        proof {
            self.session.lemma_counted();
        }
        while i < self.session.windows.len()
            invariant
                i <= self.session.windows@.len(),
                self@ == old(self)@,
                self@.sound(),
                windows == self@.session.windows,
                windows.len() == self.session.windows@.len(),
                start == crate::width::shown_columns(
                    crate::render::session_label(self@.session.name),
                ),
                tab_at(windows, 0, start, col) == tab_at(windows, i as int, x, col),
            decreases self.session.windows@.len() - i,
        {
            let window = &self.session.windows[i];
            assert(windows[i as int] == window@);
            let label = status_window_label(i, window.name.as_str(), window.id);
            let end: u16 = x.saturating_add(text_width(label.as_str()));
            if x <= col && col < end {
                return self.select_window(i);
            }
            x = end;
            i = i + 1;
        }
        false
    }

    pub fn next_pane(&mut self)
        requires
            old(self)@.sound(),
        ensures
            final(self)@ == old(self)@.next_pane_chosen(),
            final(self)@.sound(),
    {
        let ghost before = self@;
        proof {
            crate::soundness::lemma_session_sound(before);
            crate::soundness::lemma_current_touched(
                before,
                WindowState { active: before.current().next_active(), ..before.current() },
            );
        }
        self.session.active_window_mut().next_pane();
        assert(self@ =~= before.next_pane_chosen());
    }

    pub fn previous_pane(&mut self)
        requires
            old(self)@.sound(),
        ensures
            final(self)@ == old(self)@.previous_pane_chosen(),
            final(self)@.sound(),
    {
        let ghost before = self@;
        proof {
            crate::soundness::lemma_session_sound(before);
            crate::soundness::lemma_current_touched(
                before,
                WindowState { active: before.current().previous_active(), ..before.current() },
            );
        }
        self.session.active_window_mut().previous_pane();
        assert(self@ =~= before.previous_pane_chosen());
    }

    pub fn select_layout(&mut self, axis: SplitAxis)
        requires
            old(self)@.sound(),
        ensures
            final(self)@ == old(self)@.with_current(old(self)@.current().laid_out_evenly(axis)),
            final(self)@.sound(),
    {
        let ghost before = self@;
        proof {
            crate::soundness::lemma_session_sound(before);
            crate::soundness::lemma_laid_out_evenly(before, axis);
        }
        self.session.active_window_mut().select_layout(axis);
        assert(self@ =~= before.with_current(before.current().laid_out_evenly(axis)));
    }

    fn toggle_layout(&mut self)
        requires
            old(self)@.sound(),
        ensures
            final(self)@ == old(self)@.layout_toggled(),
            final(self)@.sound(),
    {
        proof {
            crate::soundness::lemma_session_sound(self@);
        }
        let next = match self.session.active_window().split_axis {
            SplitAxis::Horizontal => SplitAxis::Vertical,
            SplitAxis::Vertical => SplitAxis::Horizontal,
        };
        self.select_layout(next);
    }

    pub fn set_synchronize_panes(&mut self, enabled: bool)
        requires
            old(self)@.sound(),
        ensures
            final(self)@ == old(self)@.with_current(
                WindowState { synchronized: enabled, ..old(self)@.current() },
            ),
            final(self)@.sound(),
    {
        let ghost before = self@;
        proof {
            crate::soundness::lemma_session_sound(before);
            crate::soundness::lemma_current_touched(
                before,
                WindowState { synchronized: enabled, ..before.current() },
            );
        }
        let window = self.session.active_window_mut();
        window.synchronize_panes = enabled;
        assert(self@ =~= before.with_current(
            WindowState { synchronized: enabled, ..before.current() },
        ));
    }

    pub fn set_default_command(&mut self, command: Option<String>)
        requires
            old(self)@.sound(),
        ensures
            final(self)@ == (RmuxState {
                session: SessionState {
                    default_command: optional_text(command),
                    ..old(self)@.session
                },
                ..old(self)@
            }),
            final(self)@.sound(),
    {
        self.session.default_command = command;
    }

    pub fn set_prefix_key(&mut self, key: u8)
        requires
            old(self)@.sound(),
        ensures
            final(self)@ == (RmuxState {
                session: SessionState { prefix_key: key, ..old(self)@.session },
                ..old(self)@
            }),
            final(self)@.sound(),
    {
        self.session.prefix_key = key;
    }

    pub fn bind_key(&mut self, key: char, command: BoundCommand)
        requires
            old(self)@.sound(),
        ensures
            final(self)@ == (RmuxState {
                session: SessionState {
                    bindings: crate::session::bound(old(self)@.session.bindings, key, command),
                    ..old(self)@.session
                },
                ..old(self)@
            }),
            final(self)@.sound(),
    {
        self.session.bind_key(key, command);
    }

    pub fn resize_active_pane(&mut self, direction: ResizeDirection, amount: u16) -> (result: bool)
        requires
            old(self)@.sound(),
        ensures
            (final(self)@, result) == old(self)@.pane_resized(direction, amount),
            final(self)@.sound(),
    {
        let ghost before = self@;
        proof {
            crate::soundness::lemma_session_sound(before);
            crate::soundness::lemma_pane_resized(before, direction, amount);
        }
        let resized = self.session.active_window_mut().resize_active_pane(direction, amount);
        assert(self@ =~= before.pane_resized(direction, amount).0);
        resized
    }

    pub fn swap_active_pane(&mut self, direction: SwapDirection) -> (result: bool)
        requires
            old(self)@.sound(),
        ensures
            (final(self)@, result) == old(self)@.pane_swapped(direction),
            final(self)@.sound(),
    {
        let ghost before = self@;
        proof {
            crate::soundness::lemma_session_sound(before);
            crate::soundness::lemma_pane_swapped(before, direction);
        }
        let swapped = self.session.active_window_mut().swap_active_pane(direction);
        assert(self@ =~= before.pane_swapped(direction).0);
        swapped
    }

    pub fn swap_active_window(&mut self, direction: SwapDirection) -> (result: bool)
        requires
            old(self)@.sound(),
        ensures
            result == (old(self)@.session.neighbor(direction) is Some),
            final(self)@ == match old(self)@.session.neighbor(direction) {
                Some(other) => RmuxState {
                    session: old(self)@.session.windows_swapped(other),
                    ..old(self)@
                },
                None => old(self)@,
            },
            final(self)@.sound(),
    {
        proof {
            crate::soundness::lemma_session_sound(self@);
            self.session.lemma_counted();
            crate::soundness::lemma_windows_swapped(self@, direction);
        }
        self.session.swap_active_window(direction)
    }

    pub fn move_active_window(&mut self, index: usize) -> (result: bool)
        requires
            old(self)@.sound(),
        ensures
            result == (index < old(self)@.session.windows.len()),
            final(self)@ == if result {
                RmuxState { session: old(self)@.session.window_moved(index), ..old(self)@ }
            } else {
                old(self)@
            },
            final(self)@.sound(),
    {
        proof {
            crate::soundness::lemma_session_sound(self@);
            if index < self@.session.windows.len() {
                crate::soundness::lemma_window_moved(self@, index);
            }
        }
        self.session.move_active_window(index)
    }

    /// Moves the active pane into a window of its own, unless it is the only one
    /// of its window.
    pub fn break_active_pane(&mut self, name: Option<String>) -> (result: bool)
        requires
            old(self)@.sound(),
            old(self)@.can_break(),
        ensures
            result == (old(self)@.current().panes.len() > 1),
            final(self)@ == if result {
                old(self)@.pane_broken(optional_text(name))
            } else {
                old(self)@
            },
            final(self)@.sound(),
    {
        let ghost before = self@;
        proof {
            crate::soundness::lemma_session_sound(before);
        }
        let taken = self.session.active_window_mut().take_active_pane();
        let (pane, weight) = match taken {
            Some(taken) => taken,
            None => {
                assert(self@ =~= before);
                return false;
            },
        };
        let ghost parted = self@;
        assert(parted =~= before.with_current(
            before.current().pane_taken(before.current().active),
        ));
        let id: u64 = self.next_window_id;
        self.next_window_id = id + 1;
        let ghost asked = optional_text(name);
        let name = match name {
            Some(name) => name,
            None => window_name(id),
        };
        proof {
            crate::soundness::lemma_current_lost_pane(before, before.current().active);
            crate::soundness::lemma_session_sound(parted);
        }
        self.session.push_window(Window::from_pane(id, name, pane, weight));
        proof {
            assert(self@ =~= before.pane_broken(asked));
            self.session.lemma_counted();
            crate::soundness::lemma_pane_broken(before, asked);
        }
        true
    }

    /// Moves a pane from another window into the active one.
    pub fn join_pane(&mut self, source_window: usize, source_pane: usize) -> (result: bool)
        requires
            old(self)@.sound(),
        ensures
            result == old(self)@.session.can_join(source_window, source_pane),
            final(self)@ == if result {
                RmuxState {
                    session: old(self)@.session.pane_joined(source_window, source_pane),
                    ..old(self)@
                }
            } else {
                old(self)@
            },
            final(self)@.sound(),
    {
        proof {
            crate::soundness::lemma_session_sound(self@);
            if self@.session.can_join(source_window, source_pane) {
                crate::soundness::lemma_pane_joined(self@, source_window, source_pane);
            }
        }
        self.session.join_pane_into_active(source_window, source_pane)
    }

    /// Detaches every client.
    pub fn detach_clients(&mut self)
        requires
            old(self)@.sound(),
        ensures
            final(self)@ == old(self)@.clients_detached(),
            final(self)@.sound(),
    {
        self.detach_generation = self.detach_generation.saturating_add(1);
    }

    pub fn kill_active_pane(&mut self) -> (result: bool)
        requires
            old(self)@.sound(),
        ensures
            result == (old(self)@.current().panes.len() > 1),
            final(self)@ == if result {
                old(self)@.with_current(
                    old(self)@.current().pane_taken(old(self)@.current().active),
                )
            } else {
                old(self)@
            },
            final(self)@.sound(),
    {
        let ghost before = self@;
        proof {
            crate::soundness::lemma_session_sound(before);
            if before.current().panes.len() > 1 {
                crate::soundness::lemma_current_lost_pane(before, before.current().active);
            }
        }
        let killed = self.session.active_window_mut().kill_active_pane();
        proof {
            if killed {
                assert(self@ =~= before.with_current(
                    before.current().pane_taken(before.current().active),
                ));
            } else {
                assert(self@ =~= before);
            }
        }
        killed
    }

    pub fn kill_other_panes(&mut self) -> (result: bool)
        requires
            old(self)@.sound(),
        ensures
            result == (old(self)@.current().panes.len() > 1),
            final(self)@ == if result {
                old(self)@.with_current(old(self)@.current().others_killed())
            } else {
                old(self)@
            },
            final(self)@.sound(),
    {
        let ghost before = self@;
        proof {
            crate::soundness::lemma_session_sound(before);
            if before.current().panes.len() > 1 {
                crate::soundness::lemma_others_killed(before);
            }
        }
        let killed = self.session.active_window_mut().kill_other_panes();
        proof {
            if killed {
                assert(self@ =~= before.with_current(before.current().others_killed()));
            } else {
                assert(self@ =~= before);
            }
        }
        killed
    }

    /// Begins to restart the active pane: the terminal that it asks for is to be
    /// started.
    pub fn respawn_active_pane(&mut self, command: Option<&str>) -> (result: Result<Effect, Error>)
        requires
            old(self)@.sound(),
        ensures
            (final(self)@, outcome(result)) == old(self)@.pane_respawn_requested(
                optional_str(command),
            ),
            final(self)@.sound(),
            result matches Ok(Effect::Spawn(request)) ==> final(self)@.awaits(request@),
    {
        proof {
            crate::soundness::lemma_session_sound(self@);
        }
        let window = self.session.active_window();
        if window.panes.len() == 0 {
            return Err(Error::NoPaneToRespawn);
        }
        let pane = *window.active_pane();
        Ok(
            Effect::Spawn(
                SpawnRequest {
                    purpose: SpawnPurpose::RespawnPane,
                    pane_id: pane.id,
                    size: pane.size,
                    command: self.effective_command(command),
                },
            ),
        )
    }

    /// Begins to restart the active window: its panes go, and the terminal that
    /// it asks for is to be started.
    pub fn respawn_active_window(&mut self, command: Option<&str>) -> (result: Result<
        Effect,
        Error,
    >)
        requires
            old(self)@.sound(),
            old(self)@.has_pane_id(),
        ensures
            (final(self)@, outcome(result)) == old(self)@.window_respawn_requested(
                optional_str(command),
            ),
            final(self)@.sound(),
            result matches Ok(Effect::Spawn(request)) ==> final(self)@.awaits(request@),
    {
        let ghost before = self@;
        let pane_id: u64 = self.next_pane_id;
        proof {
            crate::soundness::lemma_session_sound(before);
            crate::soundness::lemma_numbered_up(before);
        }
        self.next_pane_id = pane_id + 1;
        let ghost numbered = self@;
        proof {
            crate::soundness::lemma_session_sound(numbered);
            crate::soundness::lemma_emptied(numbered);
        }
        let size = new_pane_size(self.tty_size);
        let command = self.effective_command(command);
        self.session.active_window_mut().begin_respawn();
        proof {
            assert(self@ =~= numbered.with_current(before.current().emptied()));
            assert forall|w: int, i: int| #[trigger]
                is_pane(self@.session.windows, w, i) implies self@.session.windows[w].panes[i].id
                != pane_id by {
                assert(is_pane(before.session.windows, w, i));
            }
        }
        Ok(
            Effect::Spawn(
                SpawnRequest { purpose: SpawnPurpose::RespawnWindow, pane_id, size, command },
            ),
        )
    }

    pub fn kill_active_window(&mut self) -> (result: bool)
        requires
            old(self)@.sound(),
        ensures
            result == (old(self)@.session.windows.len() > 1),
            final(self)@ == if result {
                RmuxState {
                    session: old(self)@.session.window_killed(old(self)@.session.active),
                    ..old(self)@
                }
            } else {
                old(self)@
            },
            final(self)@.sound(),
    {
        proof {
            crate::soundness::lemma_session_sound(self@);
            if self@.session.windows.len() > 1 {
                crate::soundness::lemma_window_killed(self@, self@.session.active);
            }
        }
        self.session.kill_active_window()
    }

    pub fn rename_active_window(&mut self, name: String)
        requires
            old(self)@.sound(),
        ensures
            final(self)@ == old(self)@.with_current(
                WindowState { name: name@, ..old(self)@.current() },
            ),
            final(self)@.sound(),
    {
        let ghost before = self@;
        proof {
            crate::soundness::lemma_session_sound(before);
            crate::soundness::lemma_current_touched(
                before,
                WindowState { name: name@, ..before.current() },
            );
        }
        let ghost shown = name@;
        let window = self.session.active_window_mut();
        window.name = name;
        assert(self@ =~= before.with_current(WindowState { name: shown, ..before.current() }));
    }

    pub fn rename_session(&mut self, name: String)
        requires
            old(self)@.sound(),
        ensures
            final(self)@ == (RmuxState {
                session: SessionState { name: name@, ..old(self)@.session },
                ..old(self)@
            }),
            final(self)@.sound(),
    {
        self.session.name = name;
    }

    /// Closes the panes whose terminals have ended, given by the places of their
    /// windows and their places in them.
    pub fn drain_events(&mut self, exited: &Vec<(usize, usize)>)
        requires
            old(self)@.sound(),
        ensures
            final(self)@ == old(self)@.all_exited_closed(in_order(exited@)),
            final(self)@.sound(),
    {
        let mut left = sorted_places(exited);
        let ghost places = left@;
        while left.len() > 0
            invariant
                self@.sound(),
                self@.all_exited_closed(left@) == old(self)@.all_exited_closed(places),
            decreases left@.len(),
        {
            let ghost before = left@;
            if let Some((window, pane)) = left.pop() {
                assert(left@ =~= before.drop_last());
                self.close_exited_pane(window, pane);
            }
        }
    }

    /// Closes the pane of an ended terminal: with the only pane of a window goes
    /// the window, and with the only pane of all the session.
    fn close_exited_pane(&mut self, window_index: usize, pane_index: usize)
        requires
            old(self)@.sound(),
        ensures
            final(self)@ == old(self)@.exited_closed(window_index, pane_index),
            final(self)@.sound(),
    {
        let ghost before = self@;
        proof {
            crate::soundness::lemma_session_sound(before);
            crate::soundness::lemma_exited_closed(before, window_index, pane_index);
            self.session.lemma_counted();
        }
        if window_index >= self.session.windows.len() {
            return;
        }
        let ghost window = self.session.windows@[window_index as int]@;
        assert(window == before.session.windows[window_index as int]);
        if self.session.windows[window_index].kill_pane(pane_index) {
            assert(self@.session.windows =~= before.session.windows.update(
                window_index as int,
                window.pane_taken(pane_index),
            ));
            assert(self@ =~= before.exited_closed(window_index, pane_index));
            return;
        }
        assert(self@.session.windows =~= before.session.windows);
        assert(self@ =~= before);
        assert(self.session.windows@[window_index as int]@ == window);
        if pane_index >= self.session.windows[window_index].panes.len() {
            return;
        }
        if self.session.kill_window(window_index) {
            return;
        }
        self.exit_reason = Some(ExitReason::Quit);
    }

    /// The ids of all panes there are.
    pub fn pane_ids(&self) -> (result: Vec<u64>)
        ensures
            forall|id: u64| #[trigger]
                result@.contains(id) <==> crate::state::has_pane(self@.session.windows, id),
    {
        let mut ids: Vec<u64> = Vec::new();
        let ghost windows = self@.session.windows;
        proof {
            self.session.lemma_counted();
        }
        let mut w: usize = 0;
        while w < self.session.windows.len()
            invariant
                w <= self.session.windows@.len(),
                windows == self@.session.windows,
                windows.len() == self.session.windows@.len(),
                forall|v: int, j: int| #[trigger]
                    is_pane(windows, v, j) && v < w ==> ids@.contains(windows[v].panes[j].id),
                forall|k: int|
                    0 <= k < ids@.len() ==> crate::state::has_pane(windows, #[trigger] ids@[k]),
            decreases self.session.windows@.len() - w,
        {
            let window = &self.session.windows[w];
            assert(windows[w as int] == window@);
            let mut i: usize = 0;
            while i < window.panes.len()
                invariant
                    w < windows.len(),
                    windows[w as int] == window@,
                    i <= window.panes@.len(),
                    forall|v: int, j: int| #[trigger]
                        is_pane(windows, v, j) && (v < w || v == w && j < i) ==> ids@.contains(
                            windows[v].panes[j].id,
                        ),
                    forall|k: int|
                        0 <= k < ids@.len() ==> crate::state::has_pane(
                            windows,
                            #[trigger] ids@[k],
                        ),
                decreases window.panes@.len() - i,
            {
                let ghost before = ids@;
                assert(is_pane(windows, w as int, i as int));
                ids.push(window.panes[i].id);
                assert forall|v: int, j: int| #[trigger]
                    is_pane(windows, v, j) && (v < w || v == w && j < i + 1) implies ids@.contains(
                    windows[v].panes[j].id,
                ) by {
                    if v == w && j == i {
                        assert(ids@[before.len() as int] == windows[v].panes[j].id);
                    } else {
                        let k = choose|k: int|
                            0 <= k < before.len() && before[k] == windows[v].panes[j].id;
                        assert(ids@[k] == windows[v].panes[j].id);
                    }
                }
                i = i + 1;
            }
            w = w + 1;
        }
        assert forall|id: u64| crate::state::has_pane(windows, id) implies #[trigger]
        ids@.contains(id) by {
            let (v, j) = choose|v: int, j: int| #[trigger]
                is_pane(windows, v, j) && windows[v].panes[j].id == id;
            assert(is_pane(windows, v, j) && v < w);
        }
        ids
    }

    /// The command that was bound to a key without modifiers.
    fn bound_command_for_key(&self, key: KeyEvent) -> (result: Option<BoundCommand>)
        ensures
            result == self@.bound_to(key),
    {
        match key.code {
            KeyCode::Char(ch) => {
                if !key.modifiers.is_empty() {
                    return None;
                }
                self.session.command_bound_to(ch)
            },
            _ => None,
        }
    }

    fn effective_command(&self, command: Option<&str>) -> (result: Option<String>)
        ensures
            optional_text(result) == self@.effective(optional_str(command)),
    {
        match command {
            Some(command) => Some(command.to_string()),
            None => match &self.session.default_command {
                Some(command) => Some(command.as_str().to_string()),
                None => None,
            },
        }
    }

    fn select_window_digit(&mut self, digit: char)
        requires
            old(self)@.sound(),
        ensures
            final(self)@ == old(self)@.window_chosen_by(digit),
            final(self)@.sound(),
    {
        if '1' <= digit && digit <= '9' {
            let index: u32 = digit as u32 - 49;
            self.select_window(index as usize);
        }
    }
}

/// Puts a place where it belongs among places in order, unless it is there.
fn insert_place(places: &mut Vec<(usize, usize)>, place: (usize, usize))
    ensures
        final(places)@ == put_in_order(old(places)@, place),
{
    let ghost before = places@;
    let mut i: usize = 0;
    assert(before.skip(0) =~= before);
    assert(before.take(0) + put_in_order(before, place) =~= put_in_order(before, place));
    while i < places.len()
        invariant
            i <= places@.len(),
            places@ == before,
            before == old(places)@,
            put_in_order(before, place) == before.take(i as int) + put_in_order(
                before.skip(i as int),
                place,
            ),
        decreases places@.len() - i,
    {
        let other = places[i];
        let ghost rest = before.skip(i as int);
        if place.0 < other.0 || (place.0 == other.0 && place.1 < other.1) {
            places.insert(i, place);
            assert(places@ =~= before.take(i as int) + (seq![place] + rest));
            return;
        }
        if place.0 == other.0 && place.1 == other.1 {
            assert(before =~= before.take(i as int) + rest);
            return;
        }
        assert(rest.skip(1) =~= before.skip(i + 1));
        assert(before.take(i as int) + (seq![rest[0]] + put_in_order(rest.skip(1), place))
            =~= before.take(i + 1) + put_in_order(before.skip(i + 1), place));
        i = i + 1;
    }
    places.push(place);
    assert(places@ =~= before.take(i as int) + (seq![place] + before.skip(i as int)));
}

/// Places in order, each of them once.
fn sorted_places(places: &Vec<(usize, usize)>) -> (result: Vec<(usize, usize)>)
    ensures
        result@ == in_order(places@),
{
    let mut sorted: Vec<(usize, usize)> = Vec::new();
    let mut i: usize = 0;
    while i < places.len()
        invariant
            i <= places@.len(),
            sorted@ == in_order(places@.take(i as int)),
        decreases places@.len() - i,
    {
        insert_place(&mut sorted, places[i]);
        assert(places@.take(i + 1).drop_last() =~= places@.take(i as int));
        i = i + 1;
    }
    assert(places@.take(i as int) =~= places@);
    sorted
}

fn holds_id(ids: &Vec<u64>, id: u64) -> (result: bool)
    ensures
        result == ids@.contains(id),
{
    let mut i: usize = 0;
    while i < ids.len()
        invariant
            i <= ids@.len(),
            forall|j: int| 0 <= j < i ==> ids@[j] != id,
        decreases ids@.len() - i,
    {
        if ids[i] == id {
            return true;
        }
        i = i + 1;
    }
    false
}

fn find_pane(panes: &Vec<Pane>, id: u64) -> (result: Option<usize>)
    ensures
        result == pane_index(panes@, id, 0),
        result matches Some(pane) ==> pane < panes@.len(),
{
    let mut i: usize = 0;
    while i < panes.len()
        invariant
            i <= panes@.len(),
            pane_index(panes@, id, 0) == pane_index(panes@, id, i as int),
        decreases panes@.len() - i,
    {
        if panes[i].id == id {
            return Some(i);
        }
        i = i + 1;
    }
    None
}

/// The inside of a pane's rectangle.
fn inner_rect(rect: Rect, framed: bool) -> (result: Rect)
    ensures
        result == inside(rect, framed),
{
    if framed {
        Rect {
            x: rect.x.saturating_add(1),
            y: rect.y.saturating_add(1),
            width: rect.width.saturating_sub(2),
            height: rect.height.saturating_sub(2),
        }
    } else {
        rect
    }
}

fn nearest_offset(at: u16, origin: u16, length: u16) -> (result: usize)
    ensures
        result == nearest(at, origin, length),
{
    if at < origin {
        return 0;
    }
    let offset: u16 = at - origin;
    let last: u16 = length.saturating_sub(1);
    if offset < last {
        offset as usize
    } else {
        last as usize
    }
}

} // verus!
