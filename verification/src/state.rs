//! The multiplexer as a mathematical value, and what each request makes of it.

use vstd::prelude::*;

#[allow(unused_imports)]
use crate::error::Error;
#[allow(unused_imports)]
use crate::geometry::Rect;
#[allow(unused_imports)]
use crate::keys::{KeyCode, KeyEvent, PrefixCommand, TerminalShortcut};
#[allow(unused_imports)]
use crate::layout::{Renumber, EVEN_PANE_WEIGHT};
#[allow(unused_imports)]
use crate::protocol::{
    BoundCommand, CursorView, ResizeDirection, RmuxCommand, SplitAxis, SwapDirection, TtySize,
    WireMouse, WireMouseButton, WireMouseKind,
};
#[allow(unused_imports)]
use crate::session::{optional_text, SessionState};
#[allow(unused_imports)]
use crate::window::{
    default_window_name, window_of, Pane, PendingSplit, WindowState, MAX_PANES_PER_WINDOW,
    MIN_PANE_COLS, MIN_PANE_ROWS,
};

verus! {

/// The most windows that a session is given.
pub const MAX_WINDOWS_PER_SESSION: usize = 64;

/// How many lines a turn of the mouse wheel scrolls.
pub const WHEEL_LINES: u16 = 3;

#[derive(Debug, Clone, Copy, PartialEq, Eq, Structural)]
pub enum ExitReason {
    Quit,
    Detach,
}

/// A selection that was made with the mouse, in cells of the screen of a pane.
#[derive(Debug, Clone, Copy, PartialEq, Eq, Structural)]
pub struct Selection {
    pub pane_id: u64,
    pub anchor: CursorView,
    pub head: CursorView,
    /// Whether the button is still held.
    pub dragging: bool,
    /// Whether the mouse has moved since the button went down.
    pub moved: bool,
    /// Whether its text is still to be put on the clipboard.
    pub fresh: bool,
}

/// What a terminal is started for.
#[derive(Debug)]
pub enum SpawnPurpose {
    Split(PendingSplit),
    NewWindow { id: u64, name: Option<String> },
    RespawnPane,
    RespawnWindow,
}

/// A terminal that is to be started, and what becomes of it once it is.
#[derive(Debug)]
pub struct SpawnRequest {
    pub purpose: SpawnPurpose,
    pub pane_id: u64,
    pub size: TtySize,
    pub command: Option<String>,
}

/// What is left to be done with terminals after a request.
#[derive(Debug)]
pub enum Effect {
    Nothing,
    /// Bytes for some panes; with `to_bottom` each of them, where it is scrolled
    /// back, shows its last lines again.
    Input { panes: Vec<u64>, bytes: Vec<u8>, to_bottom: bool },
    /// A mouse report for a pane, and whether the pane shows its last lines again.
    Report { pane_id: u64, bytes: Vec<u8>, to_bottom: bool },
    /// Lines by which a pane is scrolled back, or forward where `up` is false.
    Scroll { pane_id: u64, up: bool, lines: u16 },
    /// A terminal that is to be started.
    Spawn(SpawnRequest),
}

#[verifier::ext_equal]
pub enum PurposeState {
    Split(PendingSplit),
    NewWindow { id: u64, name: Option<Seq<char>> },
    RespawnPane,
    RespawnWindow,
}

#[verifier::ext_equal]
pub struct SpawnState {
    pub purpose: PurposeState,
    pub pane_id: u64,
    pub size: TtySize,
    pub command: Option<Seq<char>>,
}

/// An effect as a mathematical value.
#[verifier::ext_equal]
pub enum EffectState {
    Nothing,
    Input { panes: Seq<u64>, bytes: Seq<u8>, to_bottom: bool },
    Report { pane_id: u64, bytes: Seq<u8>, to_bottom: bool },
    Scroll { pane_id: u64, up: bool, lines: u16 },
    Spawn(SpawnState),
}

impl View for SpawnPurpose {
    type V = PurposeState;

    open spec fn view(&self) -> PurposeState {
        match *self {
            SpawnPurpose::Split(pending) => PurposeState::Split(pending),
            SpawnPurpose::NewWindow { id, name } => PurposeState::NewWindow {
                id,
                name: optional_text(name),
            },
            SpawnPurpose::RespawnPane => PurposeState::RespawnPane,
            SpawnPurpose::RespawnWindow => PurposeState::RespawnWindow,
        }
    }
}

impl View for SpawnRequest {
    type V = SpawnState;

    open spec fn view(&self) -> SpawnState {
        SpawnState {
            purpose: self.purpose@,
            pane_id: self.pane_id,
            size: self.size,
            command: optional_text(self.command),
        }
    }
}

impl View for Effect {
    type V = EffectState;

    open spec fn view(&self) -> EffectState {
        match *self {
            Effect::Nothing => EffectState::Nothing,
            Effect::Input { panes, bytes, to_bottom } => EffectState::Input {
                panes: panes@,
                bytes: bytes@,
                to_bottom,
            },
            Effect::Report { pane_id, bytes, to_bottom } => EffectState::Report {
                pane_id,
                bytes: bytes@,
                to_bottom,
            },
            Effect::Scroll { pane_id, up, lines } => EffectState::Scroll { pane_id, up, lines },
            Effect::Spawn(request) => EffectState::Spawn(request@),
        }
    }
}

/// What a request came to, as a mathematical value.
pub open spec fn outcome(result: Result<Effect, Error>) -> Result<EffectState, Error> {
    match result {
        Ok(effect) => Ok(effect@),
        Err(error) => Err(error),
    }
}

pub open spec fn shown_writes(writes: Seq<(u64, Vec<u8>)>) -> Seq<(u64, Seq<u8>)> {
    writes.map_values(|write: (u64, Vec<u8>)| (write.0, write.1@))
}

/// The multiplexer as a mathematical value.
#[verifier::ext_equal]
pub struct RmuxState {
    pub session: SessionState,
    pub next_pane_id: u64,
    pub next_window_id: u64,
    pub prefix: bool,
    pub messages: Seq<Seq<char>>,
    pub tty_size: TtySize,
    pub exit_reason: Option<ExitReason>,
    pub detach_generation: u64,
    pub selection: Option<Selection>,
}

/// What a request makes of the multiplexer, and what it comes to.
pub type Step = (RmuxState, Result<EffectState, Error>);

/// A request that leaves nothing to be done.
pub open spec fn done(state: RmuxState) -> Step {
    (state, Ok(EffectState::Nothing))
}

/// The size of the terminal of a window's first pane.
pub open spec fn first_pane_size(tty: TtySize) -> TtySize {
    TtySize {
        cols: crate::geometry::at_least(tty.cols - 2, MIN_PANE_COLS as int) as u16,
        rows: crate::geometry::at_least(tty.rows - 3, MIN_PANE_ROWS as int) as u16,
    }
}

/// The last messages with one more; only five are kept.
pub open spec fn with_message(messages: Seq<Seq<char>>, message: Seq<char>) -> Seq<Seq<char>> {
    (if messages.len() > 4 {
        messages.skip(1)
    } else {
        messages
    }).push(message)
}

/// What a key does: after the prefix key, or without it.
pub enum KeyMeaning {
    SendPrefix,
    Bound(BoundCommand),
    Prefixed(PrefixCommand),
    StartPrefix,
    Shortcut(TerminalShortcut),
    Typed(Seq<u8>),
}

/// Where the panes lie on the screen.
pub open spec fn panes_area(tty: TtySize) -> Rect {
    Rect {
        x: 0,
        y: 0,
        width: tty.cols,
        height: crate::geometry::floored_difference(tty.rows, crate::render::STATUS_ROWS),
    }
}

/// The inside of a pane's rectangle: all of it, or all but a border of one cell.
pub open spec fn inside(rect: Rect, framed: bool) -> Rect {
    if framed {
        Rect {
            x: crate::geometry::capped_sum(rect.x, 1),
            y: crate::geometry::capped_sum(rect.y, 1),
            width: crate::geometry::floored_difference(rect.width, 2),
            height: crate::geometry::floored_difference(rect.height, 2),
        }
    } else {
        rect
    }
}

/// The first rectangle, from `from` on, that a place lies in.
pub open spec fn rect_at(rects: Seq<Rect>, from: int, col: u16, row: u16) -> Option<usize>
    decreases rects.len() - from,
{
    if from < 0 || from >= rects.len() {
        None
    } else if crate::geometry::hits(rects[from], col, row) {
        Some(from as usize)
    } else {
        rect_at(rects, from + 1, col, row)
    }
}

/// The first pane, from `from` on, inside which a place lies.
pub open spec fn inside_at(rects: Seq<Rect>, framed: bool, from: int, col: u16, row: u16) -> Option<
    usize,
>
    decreases rects.len() - from,
{
    if from < 0 || from >= rects.len() {
        None
    } else if crate::geometry::hits(rects[from], col, row) && crate::geometry::hits(
        inside(rects[from], framed),
        col,
        row,
    ) {
        Some(from as usize)
    } else {
        inside_at(rects, framed, from + 1, col, row)
    }
}

/// The window whose label, from the `from`th on, a column of the status bar
/// lies in, where that label starts at column `x`.
pub open spec fn tab_at(windows: Seq<WindowState>, from: int, x: u16, col: u16) -> Option<usize>
    decreases windows.len() - from,
{
    if from < 0 || from >= windows.len() {
        None
    } else {
        let end = crate::geometry::capped_sum(
            x,
            crate::width::shown_columns(
                crate::render::window_label(from as nat, windows[from].name, windows[from].id),
            ),
        );
        if x <= col < end {
            Some(from as usize)
        } else {
            tab_at(windows, from + 1, end, col)
        }
    }
}

impl RmuxState {
    pub open spec fn current(self) -> WindowState {
        self.session.current()
    }

    pub open spec fn with_current(self, window: WindowState) -> RmuxState {
        RmuxState { session: self.session.with_current(window), ..self }
    }

    pub open spec fn saying(self, message: Seq<char>) -> RmuxState {
        RmuxState { messages: with_message(self.messages, message), ..self }
    }

    /// The command that a new terminal runs: the one asked for, or the one set
    /// for the session.
    pub open spec fn effective(self, command: Option<Seq<char>>) -> Option<Seq<char>> {
        match command {
            Some(command) => Some(command),
            None => self.session.default_command,
        }
    }

    /// A split of the active pane begins: the layout has a place for the new
    /// pane, and a terminal is to be started. The id is used up either way.
    pub open spec fn split_requested(self, axis: SplitAxis, command: Option<Seq<char>>) -> Step {
        let numbered = RmuxState { next_pane_id: (self.next_pane_id + 1) as u64, ..self };
        let window = self.current();
        if window.panes.len() >= MAX_PANES_PER_WINDOW {
            (numbered, Err(Error::SplitPane { pane_id: self.next_pane_id }))
        } else {
            (
                numbered.with_current(window.split_begun(axis)),
                Ok(
                    EffectState::Spawn(
                        SpawnState {
                            purpose: PurposeState::Split(
                                PendingSplit {
                                    axis,
                                    at: window.split_place(),
                                    placed: window.layout.renumbered(
                                        Renumber::Insert(window.split_place()),
                                    ).has(window.active),
                                },
                            ),
                            pane_id: self.next_pane_id,
                            size: window.panes[window.active as int].size,
                            command: self.effective(command),
                        },
                    ),
                ),
            )
        }
    }

    /// A new window begins: a terminal is to be started for it.
    pub open spec fn window_requested(
        self,
        name: Option<Seq<char>>,
        command: Option<Seq<char>>,
    ) -> Step {
        if self.session.windows.len() >= MAX_WINDOWS_PER_SESSION {
            (self, Err(Error::WindowLimit))
        } else {
            (
                RmuxState {
                    next_pane_id: (self.next_pane_id + 1) as u64,
                    next_window_id: (self.next_window_id + 1) as u64,
                    ..self
                },
                Ok(
                    EffectState::Spawn(
                        SpawnState {
                            purpose: PurposeState::NewWindow { id: self.next_window_id, name },
                            pane_id: self.next_pane_id,
                            size: first_pane_size(self.tty_size),
                            command: self.effective(command),
                        },
                    ),
                ),
            )
        }
    }

    pub open spec fn pane_respawn_requested(self, command: Option<Seq<char>>) -> Step {
        let window = self.current();
        if window.panes.len() == 0 {
            (self, Err(Error::NoPaneToRespawn))
        } else {
            let pane = window.panes[window.active as int];
            (
                self,
                Ok(
                    EffectState::Spawn(
                        SpawnState {
                            purpose: PurposeState::RespawnPane,
                            pane_id: pane.id,
                            size: pane.size,
                            command: self.effective(command),
                        },
                    ),
                ),
            )
        }
    }

    /// The active window is to be restarted: its panes go, and a terminal is to
    /// be started.
    pub open spec fn window_respawn_requested(self, command: Option<Seq<char>>) -> Step {
        (
            RmuxState { next_pane_id: (self.next_pane_id + 1) as u64, ..self }.with_current(
                self.current().emptied(),
            ),
            Ok(
                EffectState::Spawn(
                    SpawnState {
                        purpose: PurposeState::RespawnWindow,
                        pane_id: self.next_pane_id,
                        size: first_pane_size(self.tty_size),
                        command: self.effective(command),
                    },
                ),
            ),
        )
    }

    /// Whether a terminal that was to be started is still waited for.
    pub open spec fn awaits(self, request: SpawnState) -> bool {
        let window = self.current();
        match request.purpose {
            PurposeState::Split(pending) => {
                &&& 0 < window.panes.len() < MAX_PANES_PER_WINDOW
                &&& pending.at <= window.panes.len()
                &&& self.is_new_pane(request.pane_id)
            },
            PurposeState::NewWindow { id, .. } => {
                &&& self.is_new_pane(request.pane_id)
                &&& self.is_new_window(id)
            },
            PurposeState::RespawnPane => window.panes.len() > 0,
            PurposeState::RespawnWindow => {
                &&& window.panes.len() == 0
                &&& self.is_new_pane(request.pane_id)
            },
        }
    }

    /// Whether an id was given out and no pane has it.
    pub open spec fn is_new_pane(self, id: u64) -> bool {
        &&& id < self.next_pane_id
        &&& forall|w: int, i: int| #[trigger]
            is_pane(self.session.windows, w, i) ==> self.session.windows[w].panes[i].id != id
    }

    /// Whether an id was given out and no window has it.
    pub open spec fn is_new_window(self, id: u64) -> bool {
        &&& id < self.next_window_id
        &&& forall|w: int|
            0 <= w < self.session.windows.len() ==> (#[trigger] self.session.windows[w]).id != id
    }

    /// What becomes of a request for a terminal once it was started, or could
    /// not be.
    pub open spec fn spawn_finished(self, request: SpawnState, started: bool) -> (
        RmuxState,
        Result<(), Error>,
    ) {
        let pane = Pane { id: request.pane_id, size: request.size, last_rect: None };
        let window = self.current();
        match request.purpose {
            PurposeState::Split(pending) => if started {
                (
                    self.with_current(
                        window.split_finished(pending.axis, pending.at, pending.placed, pane),
                    ),
                    Ok(()),
                )
            } else {
                (self, Err(Error::SplitPane { pane_id: request.pane_id }))
            },
            PurposeState::NewWindow { id, name } => if started {
                let name = match name {
                    Some(name) => name,
                    None => default_window_name(id),
                };
                (
                    RmuxState {
                        session: self.session.window_pushed(
                            window_of(id, name, pane, EVEN_PANE_WEIGHT),
                        ),
                        ..self
                    },
                    Ok(()),
                )
            } else {
                (self, Err(Error::SpawnTerminal))
            },
            PurposeState::RespawnPane => if started {
                let old = window.panes[window.active as int];
                (
                    self.with_current(
                        WindowState {
                            panes: window.panes.update(
                                window.active as int,
                                Pane { last_rect: None, ..old },
                            ),
                            ..window
                        },
                    ),
                    Ok(()),
                )
            } else {
                (self, Err(Error::RespawnTerminal))
            },
            PurposeState::RespawnWindow => if started {
                (self.with_current(window.restarted(pane)), Ok(()))
            } else {
                (self, Err(Error::SpawnTerminal))
            },
        }
    }

    pub open spec fn pane_killed_or_kept(self) -> Step {
        if self.current().panes.len() > 1 {
            done(self.with_current(self.current().pane_taken(self.current().active)))
        } else {
            done(self.saying("last pane kept alive"@))
        }
    }

    pub open spec fn last_window_or_none(self) -> Step {
        match self.session.last_index() {
            Some(last) => done(RmuxState { session: self.session.chosen(last), ..self }),
            None => done(self.saying("no last window"@)),
        }
    }

    pub open spec fn layout_toggled(self) -> RmuxState {
        self.with_current(
            self.current().laid_out_evenly(
                match self.current().axis {
                    SplitAxis::Horizontal => SplitAxis::Vertical,
                    SplitAxis::Vertical => SplitAxis::Horizontal,
                },
            ),
        )
    }

    pub open spec fn pane_resized(self, direction: ResizeDirection, amount: u16) -> (
        RmuxState,
        bool,
    ) {
        let window = self.current();
        match window.active_resized(direction, amount) {
            Some(resized) => (self.with_current(resized), true),
            None => if window.panes.len() <= 1 || amount == 0 {
                (self, false)
            } else {
                (self.with_current(window.synced()), false)
            },
        }
    }

    pub open spec fn pane_swapped(self, direction: SwapDirection) -> (RmuxState, bool) {
        let window = self.current();
        match window.neighbor(direction) {
            Some(other) => if window.panes.len() > 0 {
                (self.with_current(window.panes_swapped(other)), true)
            } else {
                (self, false)
            },
            None => (self, false),
        }
    }

    pub open spec fn next_pane_chosen(self) -> RmuxState {
        self.with_current(WindowState { active: self.current().next_active(), ..self.current() })
    }

    pub open spec fn previous_pane_chosen(self) -> RmuxState {
        self.with_current(
            WindowState { active: self.current().previous_active(), ..self.current() },
        )
    }

    /// Bytes for the panes that are typed into, which show their last lines again.
    pub open spec fn typed(self, bytes: Seq<u8>) -> EffectState {
        EffectState::Input { panes: self.current().input_panes(), bytes, to_bottom: true }
    }

    /// What each pane that is pasted into writes, where `bracketed` are the panes
    /// whose programs asked to be told where a paste starts and ends.
    pub open spec fn pasted(self, bytes: Seq<u8>, bracketed: Seq<u64>) -> Seq<(u64, Seq<u8>)> {
        let panes = self.current().input_panes();
        if bytes.len() == 0 {
            seq![]
        } else {
            Seq::new(
                panes.len(),
                |i: int|
                    (
                        panes[i],
                        crate::paste::paste_bytes(bytes, bracketed.contains(panes[i]))->0,
                    ),
            )
        }
    }

    /// What a key means now.
    pub open spec fn key_meaning(self, key: KeyEvent) -> KeyMeaning {
        if crate::keys::sends_byte(key, self.session.prefix_key) {
            if self.prefix {
                KeyMeaning::SendPrefix
            } else {
                KeyMeaning::StartPrefix
            }
        } else if self.prefix {
            match self.bound_to(key) {
                Some(command) => KeyMeaning::Bound(command),
                None => KeyMeaning::Prefixed(crate::keys::prefix_meaning(key.code)),
            }
        } else {
            match crate::keys::shortcut_of(key) {
                Some(shortcut) => KeyMeaning::Shortcut(shortcut),
                None => KeyMeaning::Typed(crate::keys::key_bytes(key)),
            }
        }
    }

    /// The command that was bound to a key without modifiers.
    pub open spec fn bound_to(self, key: KeyEvent) -> Option<BoundCommand> {
        match key.code {
            KeyCode::Char(ch) => if key.modifiers.empty() {
                crate::session::binding_of(self.session.bindings, ch)
            } else {
                None
            },
            _ => None,
        }
    }

    /// Whether there is what a key acts on: a pane to type into or to split, and
    /// ids for a new pane or window.
    pub open spec fn can_take(self, meaning: KeyMeaning) -> bool {
        match meaning {
            KeyMeaning::SendPrefix => self.can_type(),
            KeyMeaning::Typed(bytes) => bytes.len() > 0 ==> self.can_type(),
            KeyMeaning::Bound(BoundCommand::SplitHorizontal | BoundCommand::SplitVertical) =>
                self.can_split(),
            KeyMeaning::Bound(BoundCommand::NewWindow) => self.can_open_window(),
            KeyMeaning::Prefixed(PrefixCommand::SplitHorizontal | PrefixCommand::SplitVertical) =>
                self.can_split(),
            KeyMeaning::Prefixed(PrefixCommand::NewWindow) => self.can_open_window(),
            KeyMeaning::Shortcut(TerminalShortcut::Split(_)) => self.can_split(),
            KeyMeaning::Shortcut(TerminalShortcut::NewWindow) => self.can_open_window(),
            _ => true,
        }
    }

    /// Whether there is a pane to type into. A window whose panes are all typed
    /// into at once may have none.
    pub open spec fn can_type(self) -> bool {
        self.current().synchronized || self.current().panes.len() > 0
    }

    /// Whether there is a pane to split, and an id for the new one.
    pub open spec fn can_split(self) -> bool {
        self.current().panes.len() > 0 && self.has_pane_id()
    }

    /// Whether there are ids for a new window and its pane, where the session may
    /// be given one.
    pub open spec fn can_open_window(self) -> bool {
        self.session.windows.len() < MAX_WINDOWS_PER_SESSION ==> self.has_pane_id()
            && self.has_window_id()
    }

    /// Whether there is an id for the window of its own that the active pane is
    /// moved into, where it is not the only pane.
    pub open spec fn can_break(self) -> bool {
        self.current().panes.len() > 1 ==> self.has_window_id()
    }

    pub open spec fn bound_run(self, command: BoundCommand) -> Step {
        match command {
            BoundCommand::SplitHorizontal => self.split_requested(SplitAxis::Horizontal, None),
            BoundCommand::SplitVertical => self.split_requested(SplitAxis::Vertical, None),
            BoundCommand::NewWindow => self.window_requested(None, None),
            BoundCommand::NextPane => done(self.next_pane_chosen()),
            BoundCommand::PreviousPane => done(self.previous_pane_chosen()),
            BoundCommand::KillPane => self.pane_killed_or_kept(),
            BoundCommand::DetachClient => done(
                RmuxState { exit_reason: Some(ExitReason::Detach), ..self },
            ),
            BoundCommand::LastWindow => self.last_window_or_none(),
            BoundCommand::ToggleLayout => done(self.layout_toggled()),
        }
    }

    pub open spec fn prefixed_run(self, command: PrefixCommand) -> Step {
        match command {
            PrefixCommand::SplitHorizontal => self.split_requested(SplitAxis::Horizontal, None),
            PrefixCommand::SplitVertical => self.split_requested(SplitAxis::Vertical, None),
            PrefixCommand::NewWindow => self.window_requested(None, None),
            PrefixCommand::NextPane => done(self.next_pane_chosen()),
            PrefixCommand::PreviousPane => done(self.previous_pane_chosen()),
            PrefixCommand::LastWindow => self.last_window_or_none(),
            PrefixCommand::ToggleLayout => done(self.layout_toggled()),
            PrefixCommand::Resize(direction) => {
                let (state, resized) = self.pane_resized(direction, 1);
                done(
                    if resized {
                        state
                    } else {
                        state.saying("pane cannot be resized"@)
                    },
                )
            },
            PrefixCommand::SwapPane(direction) => {
                let (state, swapped) = self.pane_swapped(direction);
                done(
                    if swapped {
                        state
                    } else {
                        state.saying("pane cannot be swapped"@)
                    },
                )
            },
            PrefixCommand::KillPane => self.pane_killed_or_kept(),
            PrefixCommand::Detach => done(
                RmuxState { exit_reason: Some(ExitReason::Detach), ..self },
            ),
            PrefixCommand::Quit => done(RmuxState { exit_reason: Some(ExitReason::Quit), ..self }),
            PrefixCommand::SelectWindow(digit) => done(self.window_chosen_by(digit)),
            PrefixCommand::Unknown => done(self.saying("unknown prefix command"@)),
        }
    }

    /// The window that a digit names, counted from one, where there is one.
    pub open spec fn window_chosen_by(self, digit: char) -> RmuxState {
        if '1' <= digit <= '9' && (digit as int - 49) < self.session.windows.len() {
            RmuxState {
                session: self.session.chosen((digit as int - 49) as usize),
                ..self
            }
        } else {
            self
        }
    }

    pub open spec fn shortcut_run(self, shortcut: TerminalShortcut) -> Step {
        match shortcut {
            TerminalShortcut::Split(axis) => self.split_requested(axis, None),
            TerminalShortcut::ClosePane => self.pane_killed_or_kept(),
            TerminalShortcut::NewWindow => self.window_requested(None, None),
            TerminalShortcut::SelectWindow(index) => if index < self.session.windows.len() {
                done(RmuxState { session: self.session.chosen(index), ..self })
            } else {
                done(
                    self.saying(
                        "window "@ + crate::text::decimal(index as nat + 1) + " does not exist"@,
                    ),
                )
            },
        }
    }

    /// What a key does.
    pub open spec fn key_handled(self, key: KeyEvent) -> Step {
        let unprefixed = RmuxState { prefix: false, ..self };
        match self.key_meaning(key) {
            KeyMeaning::SendPrefix => (
                unprefixed,
                Ok(unprefixed.typed(seq![self.session.prefix_key])),
            ),
            KeyMeaning::Bound(command) => unprefixed.bound_run(command),
            KeyMeaning::Prefixed(command) => unprefixed.prefixed_run(command),
            KeyMeaning::StartPrefix => done(RmuxState { prefix: true, ..self }),
            KeyMeaning::Shortcut(shortcut) => self.shortcut_run(shortcut),
            KeyMeaning::Typed(bytes) => if bytes.len() > 0 {
                (self, Ok(self.typed(bytes)))
            } else {
                done(self)
            },
        }
    }

    /// The active pane moved into a window of its own.
    pub open spec fn pane_broken(self, name: Option<Seq<char>>) -> RmuxState {
        let window = self.current();
        let id = self.next_window_id;
        let name = match name {
            Some(name) => name,
            None => default_window_name(id),
        };
        RmuxState {
            session: self.session.with_current(window.pane_taken(window.active)).window_pushed(
                window_of(
                    id,
                    name,
                    window.panes[window.active as int],
                    window.weights[window.active as int],
                ),
            ),
            next_window_id: (id + 1) as u64,
            ..self
        }
    }

    /// Whether there is what a command acts on: a pane to type into or to split,
    /// and ids for a new pane or window.
    pub open spec fn can_apply(self, command: RmuxCommand) -> bool {
        match command {
            RmuxCommand::SplitWindow { .. } => self.can_split(),
            RmuxCommand::SendPrefix => self.can_type(),
            RmuxCommand::NewWindow { .. } => self.can_open_window(),
            RmuxCommand::BreakPane { .. } => self.can_break(),
            RmuxCommand::RespawnWindow { .. } => self.has_pane_id(),
            _ => true,
        }
    }

    /// What a command does.
    pub open spec fn command_applied(self, command: RmuxCommand) -> Step {
        let session = self.session;
        let window = self.current();
        match command {
            RmuxCommand::NewWindow { name, command } => self.window_requested(
                optional_text(name),
                optional_text(command),
            ),
            RmuxCommand::SplitWindow { axis, command } => self.split_requested(
                axis,
                optional_text(command),
            ),
            RmuxCommand::SelectWindow { index } => if index < session.windows.len() {
                done(RmuxState { session: session.chosen(index), ..self })
            } else {
                (self, Err(Error::NoSuchWindow { index }))
            },
            RmuxCommand::NextWindow => done(
                RmuxState { session: session.chosen(session.next_index()), ..self },
            ),
            RmuxCommand::PreviousWindow => done(
                RmuxState { session: session.chosen(session.previous_index()), ..self },
            ),
            RmuxCommand::LastWindow => match session.last_index() {
                Some(last) => done(RmuxState { session: session.chosen(last), ..self }),
                None => (self, Err(Error::NoLastWindow)),
            },
            RmuxCommand::SelectPane { index } => if index < window.panes.len() {
                done(self.pane_chosen(index))
            } else {
                (self, Err(Error::NoSuchPane { index }))
            },
            RmuxCommand::NextPane => done(self.next_pane_chosen()),
            RmuxCommand::PreviousPane => done(self.previous_pane_chosen()),
            RmuxCommand::SelectLayout { axis } => done(
                self.with_current(window.laid_out_evenly(axis)),
            ),
            RmuxCommand::ResizePane { direction, amount } => {
                let (state, resized) = self.pane_resized(direction, amount);
                (
                    state,
                    if resized {
                        Ok(EffectState::Nothing)
                    } else {
                        Err(Error::PaneCannotResize)
                    },
                )
            },
            RmuxCommand::SwapPane { direction } => {
                let (state, swapped) = self.pane_swapped(direction);
                (
                    state,
                    if swapped {
                        Ok(EffectState::Nothing)
                    } else {
                        Err(Error::PaneCannotSwap)
                    },
                )
            },
            RmuxCommand::SwapWindow { direction } => match session.neighbor(direction) {
                Some(other) => done(RmuxState { session: session.windows_swapped(other), ..self }),
                None => (self, Err(Error::WindowCannotSwap)),
            },
            RmuxCommand::MoveWindow { index } => if index < session.windows.len() {
                done(RmuxState { session: session.window_moved(index), ..self })
            } else {
                (self, Err(Error::NoSuchWindow { index }))
            },
            RmuxCommand::SendPrefix => (self, Ok(self.typed(seq![session.prefix_key]))),
            RmuxCommand::BreakPane { name } => if window.panes.len() > 1 {
                done(self.pane_broken(optional_text(name)))
            } else {
                (self, Err(Error::LastPaneCannotBreak))
            },
            RmuxCommand::JoinPane { source_window, source_pane } => if session.can_join(
                source_window,
                source_pane,
            ) {
                done(RmuxState { session: session.pane_joined(source_window, source_pane), ..self })
            } else {
                (self, Err(Error::PaneCannotJoin))
            },
            RmuxCommand::DetachClient => done(self.clients_detached()),
            RmuxCommand::KillPane { all_other } => if window.panes.len() > 1 {
                done(
                    self.with_current(
                        if all_other {
                            window.others_killed()
                        } else {
                            window.pane_taken(window.active)
                        },
                    ),
                )
            } else if all_other {
                (self, Err(Error::NoOtherPanes))
            } else {
                (self, Err(Error::LastPaneCannotBeKilled))
            },
            RmuxCommand::RespawnPane { command } => self.pane_respawn_requested(
                optional_text(command),
            ),
            RmuxCommand::RespawnWindow { command } => self.window_respawn_requested(
                optional_text(command),
            ),
            RmuxCommand::SetSynchronizePanes { enabled } => done(
                self.with_current(WindowState { synchronized: enabled, ..window }),
            ),
            RmuxCommand::SetDefaultCommand { command } => done(
                RmuxState {
                    session: SessionState { default_command: optional_text(command), ..session },
                    ..self
                },
            ),
            RmuxCommand::SetPrefixKey { key } => done(
                RmuxState { session: SessionState { prefix_key: key, ..session }, ..self },
            ),
            RmuxCommand::BindKey { key, command } => done(
                RmuxState {
                    session: SessionState {
                        bindings: crate::session::bound(session.bindings, key, command),
                        ..session
                    },
                    ..self
                },
            ),
            RmuxCommand::KillWindow => if session.windows.len() > 1 {
                done(RmuxState { session: session.window_killed(session.active), ..self })
            } else {
                (self, Err(Error::LastWindowCannotBeKilled))
            },
            RmuxCommand::RenameWindow { name } => done(
                self.with_current(WindowState { name: name@, ..window }),
            ),
            RmuxCommand::RenameSession { name } => done(
                RmuxState { session: SessionState { name: name@, ..session }, ..self },
            ),
        }
    }

    /// Every client told to go: each of them sees that the count has changed.
    pub open spec fn clients_detached(self) -> RmuxState {
        RmuxState {
            detach_generation: if self.detach_generation == u64::MAX {
                u64::MAX
            } else {
                (self.detach_generation + 1) as u64
            },
            ..self
        }
    }

    /// The pane of an ended terminal closed: with the only pane of a window goes
    /// the window, and with the only pane of all the session.
    pub open spec fn exited_closed(self, window: usize, pane: usize) -> RmuxState {
        let windows = self.session.windows;
        if window >= windows.len() || pane >= windows[window as int].panes.len() {
            self
        } else if windows[window as int].panes.len() > 1 {
            RmuxState {
                session: SessionState {
                    windows: windows.update(
                        window as int,
                        windows[window as int].pane_taken(pane),
                    ),
                    ..self.session
                },
                ..self
            }
        } else if windows.len() > 1 {
            RmuxState { session: self.session.window_killed(window), ..self }
        } else {
            RmuxState { exit_reason: Some(ExitReason::Quit), ..self }
        }
    }

    /// The panes of ended terminals closed, the last of them first.
    pub open spec fn all_exited_closed(self, exited: Seq<(usize, usize)>) -> RmuxState
        decreases exited.len(),
    {
        if exited.len() == 0 {
            self
        } else {
            self.exited_closed(exited.last().0, exited.last().1).all_exited_closed(
                exited.drop_last(),
            )
        }
    }

    /// Where the panes of the active window lie.
    pub open spec fn rects(self) -> Seq<Rect> {
        self.current().pane_rects(panes_area(self.tty_size))
    }

    pub open spec fn framed(self) -> bool {
        self.current().panes.len() > 1
    }

    /// Whether a row belongs to the status bar.
    pub open spec fn in_status(self, row: u16) -> bool {
        row >= crate::geometry::floored_difference(
            self.tty_size.rows,
            crate::render::STATUS_ROWS,
        )
    }

    /// The pane inside which a place of the screen lies.
    pub open spec fn pane_inside(self, col: u16, row: u16) -> Option<usize> {
        if self.in_status(row) {
            None
        } else {
            inside_at(self.rects(), self.framed(), 0, col, row)
        }
    }

    /// A place of the screen in cells of a pane's own screen.
    pub open spec fn cell_in(self, pane: usize, col: u16, row: u16) -> CursorView {
        let rect = inside(self.rects()[pane as int], self.framed());
        CursorView { col: (col - rect.x) as usize, row: (row - rect.y) as usize }
    }

    /// The cell of a pane's own screen that is nearest to a place.
    pub open spec fn nearest_cell(self, pane: usize, col: u16, row: u16) -> CursorView {
        let rect = inside(self.rects()[pane as int], self.framed());
        CursorView {
            col: nearest(col, rect.x, rect.width),
            row: nearest(row, rect.y, rect.height),
        }
    }

    /// The pane of the active window that has an id.
    pub open spec fn pane_with_id(self, id: u64) -> Option<usize> {
        pane_index(self.current().panes, id, 0)
    }

    /// The selection that is being made, where the mouse now belongs to it.
    pub open spec fn dragged(self, kind: WireMouseKind) -> Option<Selection> {
        match self.selection {
            Some(selection) => if selection.dragging && (kind == WireMouseKind::Drag(
                WireMouseButton::Left,
            ) || kind == WireMouseKind::Up(WireMouseButton::Left)) {
                Some(selection)
            } else {
                None
            },
            None => None,
        }
    }

    /// The pane whose terminal is asked whether it wants to hear of the mouse.
    /// None is of the left button with shift held, which selects text whatever the
    /// terminal wants, nor of the left button while a selection is being made.
    pub open spec fn reported_pane(self, mouse: WireMouse) -> Option<usize> {
        if self.dragged(mouse.kind) is Some || selects_text(mouse) {
            None
        } else {
            self.pane_inside(mouse.col, mouse.row)
        }
    }

    /// The selection followed to a place, or let go.
    pub open spec fn selection_moved(self, selection: Selection, mouse: WireMouse) -> RmuxState {
        if mouse.kind == WireMouseKind::Drag(WireMouseButton::Left) {
            match self.pane_with_id(selection.pane_id) {
                Some(pane) => RmuxState {
                    selection: Some(
                        Selection {
                            head: self.nearest_cell(pane, mouse.col, mouse.row),
                            moved: true,
                            ..selection
                        },
                    ),
                    ..self
                },
                None => self,
            }
        } else if selection.moved {
            RmuxState {
                selection: Some(Selection { dragging: false, fresh: true, ..selection }),
                ..self
            }
        } else {
            RmuxState { selection: None, ..self }
        }
    }

    pub open spec fn pane_chosen(self, index: usize) -> RmuxState {
        self.with_current(WindowState { active: index, ..self.current() })
    }

    /// A press of the left button that no terminal wanted: on a label it chooses
    /// the window, inside a pane it chooses the pane and begins a selection.
    pub open spec fn pressed(self, col: u16, row: u16) -> (RmuxState, bool) {
        if self.in_status(row) {
            match tab_at(
                self.session.windows,
                0,
                crate::width::shown_columns(crate::render::session_label(self.session.name)),
                col,
            ) {
                Some(index) => (
                    RmuxState { session: self.session.chosen(index), ..self },
                    true,
                ),
                None => (self, false),
            }
        } else {
            match self.pane_inside(col, row) {
                Some(pane) => (
                    RmuxState {
                        selection: Some(
                            Selection {
                                pane_id: self.current().panes[pane as int].id,
                                anchor: self.cell_in(pane, col, row),
                                head: self.cell_in(pane, col, row),
                                dragging: true,
                                moved: false,
                                fresh: false,
                            },
                        ),
                        ..self
                    }.pane_chosen(pane),
                    true,
                ),
                None => self.pane_chosen_at(col, row),
            }
        }
    }

    /// The pane chosen that a place of the screen belongs to.
    pub open spec fn pane_chosen_at(self, col: u16, row: u16) -> (RmuxState, bool) {
        if self.in_status(row) {
            (self, false)
        } else {
            match rect_at(self.rects(), 0, col, row) {
                Some(pane) => (self.pane_chosen(pane), true),
                None => (self, false),
            }
        }
    }

    /// What the mouse does. `report` is what the terminal of the pane under it
    /// wants to hear, where it was asked and wants to. `None` where the mouse
    /// means nothing here.
    pub open spec fn mouse_handled(self, mouse: WireMouse, report: Option<Seq<u8>>) -> (
        RmuxState,
        Option<EffectState>,
    ) {
        if let Some(selection) = self.dragged(mouse.kind) {
            (self.selection_moved(selection, mouse), Some(EffectState::Nothing))
        } else if self.reported_pane(mouse) is Some && report is Some {
            let pane = self.reported_pane(mouse)->0;
            let cleared = if mouse.kind is Down {
                RmuxState { selection: None, ..self }
            } else {
                self
            };
            (
                cleared.pane_chosen(pane),
                Some(
                    EffectState::Report {
                        pane_id: self.current().panes[pane as int].id,
                        bytes: report->0,
                        to_bottom: false,
                    },
                ),
            )
        } else if mouse.kind == WireMouseKind::Down(WireMouseButton::Left) {
            let (state, chosen) = self.pressed(mouse.col, mouse.row);
            (
                state,
                if chosen {
                    Some(EffectState::Nothing)
                } else {
                    None
                },
            )
        } else if mouse.kind == WireMouseKind::ScrollUp || mouse.kind
            == WireMouseKind::ScrollDown {
            (
                self,
                match self.pane_inside(mouse.col, mouse.row) {
                    Some(pane) => Some(
                        EffectState::Scroll {
                            pane_id: self.current().panes[pane as int].id,
                            up: mouse.kind == WireMouseKind::ScrollUp,
                            lines: WHEEL_LINES,
                        },
                    ),
                    None => None,
                },
            )
        } else {
            (self, None)
        }
    }
}

/// Whether the left button is used with shift held.
pub open spec fn selects_text(mouse: WireMouse) -> bool {
    &&& mouse.kind == WireMouseKind::Down(WireMouseButton::Left) || mouse.kind
        == WireMouseKind::Up(WireMouseButton::Left) || mouse.kind == WireMouseKind::Drag(
        WireMouseButton::Left,
    )
    &&& crate::protocol::modifiers_from_bits(mouse.modifiers).shift
}

/// The offset into a stretch of cells that is nearest to a place.
pub open spec fn nearest(at: u16, origin: u16, length: u16) -> usize {
    if at < origin {
        0
    } else {
        crate::geometry::at_most(at - origin, crate::geometry::at_least(length - 1, 0)) as usize
    }
}

/// The first pane, from `from` on, that has an id.
pub open spec fn pane_index(panes: Seq<Pane>, id: u64, from: int) -> Option<usize>
    decreases panes.len() - from,
{
    if from < 0 || from >= panes.len() {
        None
    } else if panes[from].id == id {
        Some(from as usize)
    } else {
        pane_index(panes, id, from + 1)
    }
}

/// Whether a window has a pane at an index.
pub open spec fn is_pane(windows: Seq<WindowState>, w: int, i: int) -> bool {
    0 <= w < windows.len() && 0 <= i < windows[w].panes.len()
}

/// Whether a pane of some window has an id.
pub open spec fn has_pane(windows: Seq<WindowState>, id: u64) -> bool {
    exists|w: int, i: int| #[trigger]
        is_pane(windows, w, i) && windows[w].panes[i].id == id
}

/// Whether one place comes before another: in an earlier window, or earlier in
/// the same one.
pub open spec fn comes_before(a: (usize, usize), b: (usize, usize)) -> bool {
    a.0 < b.0 || a.0 == b.0 && a.1 < b.1
}

/// Places in order, with one more put where it belongs unless it is there.
pub open spec fn put_in_order(places: Seq<(usize, usize)>, place: (usize, usize)) -> Seq<
    (usize, usize),
>
    decreases places.len(),
{
    if places.len() == 0 || comes_before(place, places[0]) {
        seq![place] + places
    } else if places[0] == place {
        places
    } else {
        seq![places[0]] + put_in_order(places.skip(1), place)
    }
}

/// Places in order, each of them once.
pub open spec fn in_order(places: Seq<(usize, usize)>) -> Seq<(usize, usize)>
    decreases places.len(),
{
    if places.len() == 0 {
        seq![]
    } else {
        put_in_order(in_order(places.drop_last()), places.last())
    }
}

} // verus!
