//! What a client and a session server say to each other.

use vstd::prelude::*;
#[allow(unused_imports)]
use vstd::string::*;

use crate::error::Error;
use crate::keys::{KeyCode, KeyEvent, KeyModifiers};

verus! {

#[derive(Debug, Clone)]
pub enum ClientRequest {
    Resize(TtySize),
    Key(WireKey),
    Paste(String),
    Mouse(WireMouse),
    Snapshot,
    Write(Vec<u8>),
    Command(RmuxCommand),
    Shutdown,
}

/// The size of a terminal in character cells.
#[derive(Clone, Copy, Debug, PartialEq, Eq, Structural)]
pub struct TtySize {
    pub cols: u16,
    pub rows: u16,
}

/// How an area is split: side by side, or one above the other.
#[derive(Debug, Clone, Copy, PartialEq, Eq, Structural)]
pub enum SplitAxis {
    Horizontal,
    Vertical,
}

impl SplitAxis {
    pub open spec fn layout_text(self) -> Seq<char> {
        match self {
            SplitAxis::Horizontal => "even-horizontal"@,
            SplitAxis::Vertical => "even-vertical"@,
        }
    }

    pub fn layout_name(self) -> (result: &'static str)
        ensures
            result@ == self.layout_text(),
    {
        match self {
            SplitAxis::Horizontal => "even-horizontal",
            SplitAxis::Vertical => "even-vertical",
        }
    }
}

#[derive(Debug, Clone, Copy, PartialEq, Eq, Structural)]
pub enum ResizeDirection {
    Left,
    Right,
    Up,
    Down,
}

#[derive(Debug, Clone, Copy, PartialEq, Eq, Structural)]
pub enum SwapDirection {
    Previous,
    Next,
}

/// A command that a key can be bound to.
#[derive(Debug, Clone, Copy, PartialEq, Eq, Structural)]
pub enum BoundCommand {
    SplitHorizontal,
    SplitVertical,
    NewWindow,
    NextPane,
    PreviousPane,
    KillPane,
    DetachClient,
    LastWindow,
    ToggleLayout,
}

impl BoundCommand {
    pub open spec fn command_text(self) -> Seq<char> {
        match self {
            BoundCommand::SplitHorizontal => "split-window --horizontal"@,
            BoundCommand::SplitVertical => "split-window"@,
            BoundCommand::NewWindow => "new-window"@,
            BoundCommand::NextPane => "next-pane"@,
            BoundCommand::PreviousPane => "previous-pane"@,
            BoundCommand::KillPane => "kill-pane"@,
            BoundCommand::DetachClient => "detach-client"@,
            BoundCommand::LastWindow => "last-window"@,
            BoundCommand::ToggleLayout => "select-layout next"@,
        }
    }

    pub fn command_name(self) -> (result: &'static str)
        ensures
            result@ == self.command_text(),
    {
        match self {
            BoundCommand::SplitHorizontal => "split-window --horizontal",
            BoundCommand::SplitVertical => "split-window",
            BoundCommand::NewWindow => "new-window",
            BoundCommand::NextPane => "next-pane",
            BoundCommand::PreviousPane => "previous-pane",
            BoundCommand::KillPane => "kill-pane",
            BoundCommand::DetachClient => "detach-client",
            BoundCommand::LastWindow => "last-window",
            BoundCommand::ToggleLayout => "select-layout next",
        }
    }
}

/// A command for a session; every index counts from zero.
#[derive(Debug, Clone)]
pub enum RmuxCommand {
    NewWindow { name: Option<String>, command: Option<String> },
    SplitWindow { axis: SplitAxis, command: Option<String> },
    SelectWindow { index: usize },
    NextWindow,
    PreviousWindow,
    LastWindow,
    SelectPane { index: usize },
    NextPane,
    PreviousPane,
    SelectLayout { axis: SplitAxis },
    ResizePane { direction: ResizeDirection, amount: u16 },
    SwapPane { direction: SwapDirection },
    SwapWindow { direction: SwapDirection },
    MoveWindow { index: usize },
    SendPrefix,
    BreakPane { name: Option<String> },
    JoinPane { source_window: usize, source_pane: usize },
    DetachClient,
    KillPane { all_other: bool },
    RespawnPane { command: Option<String> },
    RespawnWindow { command: Option<String> },
    SetSynchronizePanes { enabled: bool },
    SetDefaultCommand { command: Option<String> },
    SetPrefixKey { key: u8 },
    BindKey { key: char, command: BoundCommand },
    KillWindow,
    RenameWindow { name: String },
    RenameSession { name: String },
}

#[derive(Debug, Clone)]
pub enum ServerResponse {
    View(SessionView),
    Noop,
    Detached,
    Shutdown,
    Error(String),
}

impl ServerResponse {
    /// The view that a response carries, or why it carries none.
    pub fn into_view(self) -> (result: Result<SessionView, Error>)
        ensures
            match self {
                ServerResponse::View(view) => result == Ok::<SessionView, Error>(view),
                ServerResponse::Noop => result == Err::<SessionView, Error>(Error::NoView),
                ServerResponse::Detached => result == Err::<SessionView, Error>(
                    Error::SessionDetached,
                ),
                ServerResponse::Shutdown => result == Err::<SessionView, Error>(
                    Error::SessionShutDown,
                ),
                ServerResponse::Error(message) => result == Err::<SessionView, Error>(
                    Error::Server { message },
                ),
            },
    {
        match self {
            ServerResponse::View(view) => Ok(view),
            ServerResponse::Noop => Err(Error::NoView),
            ServerResponse::Detached => Err(Error::SessionDetached),
            ServerResponse::Shutdown => Err(Error::SessionShutDown),
            ServerResponse::Error(message) => Err(Error::Server { message }),
        }
    }
}

/// Everything a client needs to draw a session.
#[derive(Debug, Clone)]
pub struct SessionView {
    pub session: String,
    pub default_command: Option<String>,
    pub prefix_key: String,
    pub key_bindings: Vec<KeyBindingView>,
    pub windows: Vec<WindowTabView>,
    pub active_window: usize,
    pub panes: Vec<PaneView>,
    pub active_pane: usize,
    pub split_axis: SplitAxis,
    pub pane_weights: Vec<u16>,
    pub prefix: bool,
    pub message: Option<String>,
    /// Text that was just selected and belongs on the clipboard.
    pub clipboard_text: Option<String>,
}

#[derive(Debug, Clone)]
pub struct KeyBindingView {
    pub key: char,
    pub command: BoundCommand,
}

/// The prefix key of a view that names none.
pub fn default_prefix_key() -> (result: String)
    ensures
        result@ == "C-b"@,
{
    "C-b".to_string()
}

#[derive(Debug, Clone)]
pub struct WindowTabView {
    pub id: u64,
    pub name: String,
    pub synchronize_panes: bool,
}

#[derive(Debug, Clone)]
pub struct PaneView {
    pub id: u64,
    pub x: u16,
    pub y: u16,
    pub width: u16,
    pub height: u16,
    pub cols: u16,
    pub rows: u16,
    pub cells: Vec<PaneCell>,
    pub cursor: Option<CursorView>,
    /// How many lines the pane is scrolled back into its history.
    pub scroll_offset: usize,
    pub history_size: usize,
    pub selection: Option<SelectionView>,
    pub lines: Vec<String>,
}

#[derive(Debug, Clone, Copy, PartialEq, Eq, Structural)]
pub struct CellColor {
    pub r: u8,
    pub g: u8,
    pub b: u8,
}

#[derive(Debug, Clone, Copy, PartialEq, Eq, Structural)]
pub struct PaneCell {
    pub col: usize,
    pub row: usize,
    pub ch: char,
    pub fg: CellColor,
    pub bg: CellColor,
    pub bold: bool,
}

#[derive(Debug, Clone, Copy, PartialEq, Eq, Structural)]
pub struct CursorView {
    pub col: usize,
    pub row: usize,
}

/// A selection in a pane, from the cell where it was begun to the cell where
/// it ends; both belong to it.
#[derive(Debug, Clone, Copy, PartialEq, Eq, Structural)]
pub struct SelectionView {
    pub start: CursorView,
    pub end: CursorView,
}

#[derive(Debug, Clone, Copy)]
pub struct WireKey {
    pub code: WireKeyCode,
    pub modifiers: u8,
}

#[derive(Debug, Clone, Copy)]
pub struct WireMouse {
    pub col: u16,
    pub row: u16,
    pub kind: WireMouseKind,
    pub modifiers: u8,
}

#[derive(Debug, Clone, Copy, PartialEq, Eq, Structural)]
pub enum WireMouseKind {
    Down(WireMouseButton),
    Up(WireMouseButton),
    Drag(WireMouseButton),
    Moved,
    ScrollUp,
    ScrollDown,
    ScrollLeft,
    ScrollRight,
}

#[derive(Debug, Clone, Copy, PartialEq, Eq, Structural)]
pub enum WireMouseButton {
    Left,
    Middle,
    Right,
}

#[derive(Debug, Clone, Copy, PartialEq, Eq, Structural)]
pub enum WireKeyCode {
    Char(char),
    Enter,
    Backspace,
    Tab,
    Esc,
    Up,
    Down,
    Right,
    Left,
    Home,
    End,
    Delete,
    Unsupported,
}

/// The modifiers as they travel: shift, control, alt and super, one bit each
/// from the lowest up.
pub open spec fn modifier_bits(modifiers: KeyModifiers) -> u8 {
    ((if modifiers.shift { 1int } else { 0 }) + (if modifiers.control { 2int } else { 0 }) + (
    if modifiers.alt { 4int } else { 0 }) + (if modifiers.super_key { 8int } else { 0 })) as u8
}

/// The modifiers that the bits of `bits` stand for.
pub open spec fn modifiers_from_bits(bits: u8) -> KeyModifiers {
    KeyModifiers {
        shift: bits & 1 != 0,
        control: bits & 2 != 0,
        alt: bits & 4 != 0,
        super_key: bits & 8 != 0,
        hyper: false,
        meta: false,
    }
}

pub fn wire_modifiers(modifiers: KeyModifiers) -> (result: u8)
    ensures
        result == modifier_bits(modifiers),
{
    let mut bits: u8 = 0;
    if modifiers.shift {
        bits = bits + 1;
    }
    if modifiers.control {
        bits = bits + 2;
    }
    if modifiers.alt {
        bits = bits + 4;
    }
    if modifiers.super_key {
        bits = bits + 8;
    }
    bits
}

pub fn key_modifiers(bits: u8) -> (result: KeyModifiers)
    ensures
        result == modifiers_from_bits(bits),
{
    KeyModifiers {
        shift: bits & 1 != 0,
        control: bits & 2 != 0,
        alt: bits & 4 != 0,
        super_key: bits & 8 != 0,
        hyper: false,
        meta: false,
    }
}

pub open spec fn wire_code(code: KeyCode) -> WireKeyCode {
    match code {
        KeyCode::Char(ch) => WireKeyCode::Char(ch),
        KeyCode::Enter => WireKeyCode::Enter,
        KeyCode::Backspace => WireKeyCode::Backspace,
        KeyCode::Tab => WireKeyCode::Tab,
        KeyCode::Esc => WireKeyCode::Esc,
        KeyCode::Up => WireKeyCode::Up,
        KeyCode::Down => WireKeyCode::Down,
        KeyCode::Right => WireKeyCode::Right,
        KeyCode::Left => WireKeyCode::Left,
        KeyCode::Home => WireKeyCode::Home,
        KeyCode::End => WireKeyCode::End,
        KeyCode::Delete => WireKeyCode::Delete,
        KeyCode::Other => WireKeyCode::Unsupported,
    }
}

/// The key code that travels as `code`.
pub open spec fn unwired_code(code: WireKeyCode) -> KeyCode {
    match code {
        WireKeyCode::Char(ch) => KeyCode::Char(ch),
        WireKeyCode::Enter => KeyCode::Enter,
        WireKeyCode::Backspace => KeyCode::Backspace,
        WireKeyCode::Tab => KeyCode::Tab,
        WireKeyCode::Esc => KeyCode::Esc,
        WireKeyCode::Up => KeyCode::Up,
        WireKeyCode::Down => KeyCode::Down,
        WireKeyCode::Right => KeyCode::Right,
        WireKeyCode::Left => KeyCode::Left,
        WireKeyCode::Home => KeyCode::Home,
        WireKeyCode::End => KeyCode::End,
        WireKeyCode::Delete => KeyCode::Delete,
        WireKeyCode::Unsupported => KeyCode::Other,
    }
}

impl From<KeyEvent> for WireKey {
    fn from(key: KeyEvent) -> (result: Self) {
        WireKey {
            code: match key.code {
                KeyCode::Char(ch) => WireKeyCode::Char(ch),
                KeyCode::Enter => WireKeyCode::Enter,
                KeyCode::Backspace => WireKeyCode::Backspace,
                KeyCode::Tab => WireKeyCode::Tab,
                KeyCode::Esc => WireKeyCode::Esc,
                KeyCode::Up => WireKeyCode::Up,
                KeyCode::Down => WireKeyCode::Down,
                KeyCode::Right => WireKeyCode::Right,
                KeyCode::Left => WireKeyCode::Left,
                KeyCode::Home => WireKeyCode::Home,
                KeyCode::End => WireKeyCode::End,
                KeyCode::Delete => WireKeyCode::Delete,
                KeyCode::Other => WireKeyCode::Unsupported,
            },
            modifiers: wire_modifiers(key.modifiers),
        }
    }
}

impl vstd::std_specs::convert::FromSpecImpl<KeyEvent> for WireKey {
    open spec fn obeys_from_spec() -> bool {
        true
    }

    open spec fn from_spec(key: KeyEvent) -> Self {
        WireKey { code: wire_code(key.code), modifiers: modifier_bits(key.modifiers) }
    }
}

impl From<WireKey> for KeyEvent {
    fn from(key: WireKey) -> (result: Self) {
        KeyEvent {
            code: match key.code {
                WireKeyCode::Char(ch) => KeyCode::Char(ch),
                WireKeyCode::Enter => KeyCode::Enter,
                WireKeyCode::Backspace => KeyCode::Backspace,
                WireKeyCode::Tab => KeyCode::Tab,
                WireKeyCode::Esc => KeyCode::Esc,
                WireKeyCode::Up => KeyCode::Up,
                WireKeyCode::Down => KeyCode::Down,
                WireKeyCode::Right => KeyCode::Right,
                WireKeyCode::Left => KeyCode::Left,
                WireKeyCode::Home => KeyCode::Home,
                WireKeyCode::End => KeyCode::End,
                WireKeyCode::Delete => KeyCode::Delete,
                WireKeyCode::Unsupported => KeyCode::Other,
            },
            modifiers: key_modifiers(key.modifiers),
        }
    }
}

impl vstd::std_specs::convert::FromSpecImpl<WireKey> for KeyEvent {
    open spec fn obeys_from_spec() -> bool {
        true
    }

    open spec fn from_spec(key: WireKey) -> Self {
        KeyEvent { code: unwired_code(key.code), modifiers: modifiers_from_bits(key.modifiers) }
    }
}

/// What the mouse did, and where.
#[derive(Debug, Clone, Copy, PartialEq, Eq, Structural)]
pub struct MouseEvent {
    pub kind: WireMouseKind,
    pub column: u16,
    pub row: u16,
    pub modifiers: KeyModifiers,
}

impl From<MouseEvent> for WireMouse {
    fn from(mouse: MouseEvent) -> (result: Self) {
        WireMouse {
            col: mouse.column,
            row: mouse.row,
            kind: mouse.kind,
            modifiers: wire_modifiers(mouse.modifiers),
        }
    }
}

impl vstd::std_specs::convert::FromSpecImpl<MouseEvent> for WireMouse {
    open spec fn obeys_from_spec() -> bool {
        true
    }

    open spec fn from_spec(mouse: MouseEvent) -> Self {
        WireMouse {
            col: mouse.column,
            row: mouse.row,
            kind: mouse.kind,
            modifiers: modifier_bits(mouse.modifiers),
        }
    }
}

/// A key arrives as it was sent; hyper and meta do not travel.
pub proof fn law_key_arrives_as_sent(key: KeyEvent)
    requires
        !key.modifiers.hyper,
        !key.modifiers.meta,
    ensures
        <KeyEvent as vstd::std_specs::convert::FromSpec<WireKey>>::from_spec(
            <WireKey as vstd::std_specs::convert::FromSpec<KeyEvent>>::from_spec(key),
        ) == key,
{
    let m = key.modifiers;
    let bits = modifier_bits(m);
    let s = m.shift;
    let c = m.control;
    let a = m.alt;
    let u = m.super_key;
    assert(bits & 1 != 0 <==> s) by (bit_vector)
        requires
            bits == ((if s { 1u8 } else { 0 }) + (if c { 2u8 } else { 0 }) + (if a { 4u8 } else { 0 })
                + (if u { 8u8 } else { 0 })) as u8,
    ;
    assert(bits & 2 != 0 <==> c) by (bit_vector)
        requires
            bits == ((if s { 1u8 } else { 0 }) + (if c { 2u8 } else { 0 }) + (if a { 4u8 } else { 0 })
                + (if u { 8u8 } else { 0 })) as u8,
    ;
    assert(bits & 4 != 0 <==> a) by (bit_vector)
        requires
            bits == ((if s { 1u8 } else { 0 }) + (if c { 2u8 } else { 0 }) + (if a { 4u8 } else { 0 })
                + (if u { 8u8 } else { 0 })) as u8,
    ;
    assert(bits & 8 != 0 <==> u) by (bit_vector)
        requires
            bits == ((if s { 1u8 } else { 0 }) + (if c { 2u8 } else { 0 }) + (if a { 4u8 } else { 0 })
                + (if u { 8u8 } else { 0 })) as u8,
    ;
}

} // verus!
