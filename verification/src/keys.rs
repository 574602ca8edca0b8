//! Keys: what they mean after the prefix, as shortcuts, and as bytes for a terminal.

use vstd::prelude::*;
#[allow(unused_imports)]
use vstd::string::*;

use crate::protocol::{ResizeDirection, SplitAxis, SwapDirection};
use crate::text::lower_char;

verus! {

/// The modifier keys held while a key or a mouse button is pressed.
#[derive(Debug, Clone, Copy, PartialEq, Eq, Structural)]
pub struct KeyModifiers {
    pub shift: bool,
    pub control: bool,
    pub alt: bool,
    pub super_key: bool,
    pub hyper: bool,
    pub meta: bool,
}

impl KeyModifiers {
    pub open spec fn empty(self) -> bool {
        !(self.shift || self.control || self.alt || self.super_key || self.hyper || self.meta)
    }

    pub fn is_empty(self) -> (result: bool)
        ensures
            result == self.empty(),
    {
        !(self.shift || self.control || self.alt || self.super_key || self.hyper || self.meta)
    }
}

#[derive(Debug, Clone, Copy, PartialEq, Eq, Structural)]
pub enum KeyCode {
    Char(char),
    Enter,
    Backspace,
    Tab,
    Esc,
    Up,
    Down,
    Right,
    Left,
    Home,
    End,
    Delete,
    /// Any key that has no meaning here.
    Other,
}

#[derive(Debug, Clone, Copy, PartialEq, Eq, Structural)]
pub struct KeyEvent {
    pub code: KeyCode,
    pub modifiers: KeyModifiers,
}

impl KeyEvent {
    pub fn new(code: KeyCode, modifiers: KeyModifiers) -> (result: KeyEvent)
        ensures
            result == (KeyEvent { code, modifiers }),
    {
        KeyEvent { code, modifiers }
    }
}

/// What a key does after the prefix key.
#[derive(Debug, Clone, Copy, PartialEq, Eq, Structural)]
pub enum PrefixCommand {
    SplitHorizontal,
    SplitVertical,
    NewWindow,
    NextPane,
    PreviousPane,
    LastWindow,
    ToggleLayout,
    Resize(ResizeDirection),
    SwapPane(SwapDirection),
    KillPane,
    Detach,
    Quit,
    SelectWindow(char),
    Unknown,
}

/// What a key does without the prefix key.
#[derive(Debug, Clone, Copy, PartialEq, Eq, Structural)]
pub enum TerminalShortcut {
    Split(SplitAxis),
    ClosePane,
    NewWindow,
    SelectWindow(usize),
}

/// The meaning of each key after the prefix key.
pub open spec fn prefix_meaning(code: KeyCode) -> PrefixCommand {
    match code {
        KeyCode::Char('|') | KeyCode::Char('%') => PrefixCommand::SplitHorizontal,
        KeyCode::Char('-') | KeyCode::Char('"') => PrefixCommand::SplitVertical,
        KeyCode::Char('c') => PrefixCommand::NewWindow,
        KeyCode::Char('n') | KeyCode::Right => PrefixCommand::NextPane,
        KeyCode::Char('p') | KeyCode::Left => PrefixCommand::PreviousPane,
        KeyCode::Char('l') => PrefixCommand::LastWindow,
        KeyCode::Char(' ') => PrefixCommand::ToggleLayout,
        KeyCode::Char('H') => PrefixCommand::Resize(ResizeDirection::Left),
        KeyCode::Char('L') => PrefixCommand::Resize(ResizeDirection::Right),
        KeyCode::Char('K') => PrefixCommand::Resize(ResizeDirection::Up),
        KeyCode::Char('J') => PrefixCommand::Resize(ResizeDirection::Down),
        KeyCode::Char('{') => PrefixCommand::SwapPane(SwapDirection::Previous),
        KeyCode::Char('}') => PrefixCommand::SwapPane(SwapDirection::Next),
        KeyCode::Char('x') => PrefixCommand::KillPane,
        KeyCode::Char('d') => PrefixCommand::Detach,
        KeyCode::Char('q') => PrefixCommand::Quit,
        KeyCode::Char(ch) => if crate::text::is_digit(ch) {
            PrefixCommand::SelectWindow(ch)
        } else {
            PrefixCommand::Unknown
        },
        _ => PrefixCommand::Unknown,
    }
}

pub fn prefix_command(key: KeyEvent) -> (result: PrefixCommand)
    ensures
        result == prefix_meaning(key.code),
{
    match key.code {
        KeyCode::Char('|') | KeyCode::Char('%') => PrefixCommand::SplitHorizontal,
        KeyCode::Char('-') | KeyCode::Char('"') => PrefixCommand::SplitVertical,
        KeyCode::Char('c') => PrefixCommand::NewWindow,
        KeyCode::Char('n') | KeyCode::Right => PrefixCommand::NextPane,
        KeyCode::Char('p') | KeyCode::Left => PrefixCommand::PreviousPane,
        KeyCode::Char('l') => PrefixCommand::LastWindow,
        KeyCode::Char(' ') => PrefixCommand::ToggleLayout,
        KeyCode::Char('H') => PrefixCommand::Resize(ResizeDirection::Left),
        KeyCode::Char('L') => PrefixCommand::Resize(ResizeDirection::Right),
        KeyCode::Char('K') => PrefixCommand::Resize(ResizeDirection::Up),
        KeyCode::Char('J') => PrefixCommand::Resize(ResizeDirection::Down),
        KeyCode::Char('{') => PrefixCommand::SwapPane(SwapDirection::Previous),
        KeyCode::Char('}') => PrefixCommand::SwapPane(SwapDirection::Next),
        KeyCode::Char('x') => PrefixCommand::KillPane,
        KeyCode::Char('d') => PrefixCommand::Detach,
        KeyCode::Char('q') => PrefixCommand::Quit,
        KeyCode::Char(ch) => if '0' <= ch && ch <= '9' {
            PrefixCommand::SelectWindow(ch)
        } else {
            PrefixCommand::Unknown
        },
        _ => PrefixCommand::Unknown,
    }
}

/// The number that a digit, or a digit's key with shift held, stands for.
pub open spec fn digit_key(ch: char) -> Option<u32> {
    match ch {
        '!' => Some(1),
        '@' => Some(2),
        '#' => Some(3),
        '$' => Some(4),
        '%' => Some(5),
        '^' => Some(6),
        '&' => Some(7),
        '*' => Some(8),
        '(' => Some(9),
        ')' => Some(0),
        _ => if crate::text::is_digit(ch) {
            Some((ch as u32 - 48) as u32)
        } else {
            None
        },
    }
}

/// The window that a digit key selects, counted from zero.
pub open spec fn window_key(ch: char) -> Option<u32> {
    match digit_key(ch) {
        Some(n) => if n > 0 {
            Some((n - 1) as u32)
        } else {
            None
        },
        None => None,
    }
}

pub fn shortcut_window_index(ch: char) -> (result: Option<u32>)
    ensures
        result == window_key(ch),
{
    let digit: u32 = match ch {
        '!' => 1,
        '@' => 2,
        '#' => 3,
        '$' => 4,
        '%' => 5,
        '^' => 6,
        '&' => 7,
        '*' => 8,
        '(' => 9,
        ')' => 0,
        _ => {
            if ch < '0' || '9' < ch {
                return None;
            }
            ch as u32 - 48
        },
    };
    digit.checked_sub(1)
}

/// The shortcut of a key: with control or super the letters `w`, `t` and `d`
/// and the digits; with alt alone only the digits.
pub open spec fn shortcut_of(key: KeyEvent) -> Option<TerminalShortcut> {
    let commanding = key.modifiers.control || key.modifiers.super_key;
    match key.code {
        KeyCode::Char(ch) => {
            let window = match window_key(ch) {
                Some(index) => Some(TerminalShortcut::SelectWindow(index as usize)),
                None => None,
            };
            if commanding {
                match crate::text::lower(ch) {
                    'w' => Some(TerminalShortcut::ClosePane),
                    't' => Some(TerminalShortcut::NewWindow),
                    'd' => Some(
                        TerminalShortcut::Split(
                            if key.modifiers.shift {
                                SplitAxis::Vertical
                            } else {
                                SplitAxis::Horizontal
                            },
                        ),
                    ),
                    _ => window,
                }
            } else if key.modifiers.alt {
                window
            } else {
                None
            }
        },
        _ => None,
    }
}

pub fn terminal_shortcut(key: KeyEvent) -> (result: Option<TerminalShortcut>)
    ensures
        result == shortcut_of(key),
{
    let ch = match key.code {
        KeyCode::Char(ch) => ch,
        _ => {
            return None;
        },
    };
    let commanding = key.modifiers.control || key.modifiers.super_key;
    if !commanding && !key.modifiers.alt {
        return None;
    }
    if commanding {
        let letter = lower_char(ch);
        if letter == 'w' {
            return Some(TerminalShortcut::ClosePane);
        }
        if letter == 't' {
            return Some(TerminalShortcut::NewWindow);
        }
        if letter == 'd' {
            let axis = if key.modifiers.shift {
                SplitAxis::Vertical
            } else {
                SplitAxis::Horizontal
            };
            return Some(TerminalShortcut::Split(axis));
        }
    }
    match shortcut_window_index(ch) {
        Some(index) => Some(TerminalShortcut::SelectWindow(index as usize)),
        None => None,
    }
}

/// The byte that control and a letter, or control and `[`, send.
pub open spec fn control_code(ch: char) -> Option<u8> {
    let letter = crate::text::lower(ch);
    if 'a' <= letter <= 'z' {
        Some((letter as u8 - 96) as u8)
    } else if ch == '[' {
        Some(0x1b)
    } else {
        None
    }
}

pub fn control_byte(ch: char) -> (result: Option<u8>)
    ensures
        result == control_code(ch),
{
    let letter = lower_char(ch);
    if 'a' <= letter && letter <= 'z' {
        Some(letter as u8 - 96)
    } else if ch == '[' {
        Some(0x1b)
    } else {
        None
    }
}

/// Whether a key is control and the letter of a control byte.
pub open spec fn sends_byte(key: KeyEvent, byte: u8) -> bool {
    match key.code {
        KeyCode::Char(ch) => key.modifiers.control && control_code(ch) == Some(byte),
        _ => false,
    }
}

pub fn key_matches_byte(key: KeyEvent, byte: u8) -> (result: bool)
    ensures
        result == sends_byte(key, byte),
{
    match key.code {
        KeyCode::Char(ch) => if key.modifiers.control {
            match control_byte(ch) {
                Some(own) => own == byte,
                None => false,
            }
        } else {
            false
        },
        _ => false,
    }
}

/// The bytes that a key sends to a terminal.
pub open spec fn key_bytes(key: KeyEvent) -> Seq<u8> {
    match key.code {
        KeyCode::Char(ch) => if key.modifiers.control {
            match control_code(ch) {
                Some(byte) => seq![byte],
                None => seq![],
            }
        } else {
            vstd::utf8::encode_utf8(seq![ch])
        },
        KeyCode::Enter => seq![0x0du8],
        KeyCode::Backspace => seq![0x7fu8],
        KeyCode::Tab => seq![0x09u8],
        KeyCode::Esc => seq![0x1bu8],
        KeyCode::Up => seq![0x1bu8, 0x5b, 0x41],
        KeyCode::Down => seq![0x1bu8, 0x5b, 0x42],
        KeyCode::Right => seq![0x1bu8, 0x5b, 0x43],
        KeyCode::Left => seq![0x1bu8, 0x5b, 0x44],
        KeyCode::Home => seq![0x1bu8, 0x5b, 0x48],
        KeyCode::End => seq![0x1bu8, 0x5b, 0x46],
        KeyCode::Delete => seq![0x1bu8, 0x5b, 0x33, 0x7e],
        KeyCode::Other => seq![],
    }
}

pub fn encode_key(key: KeyEvent) -> (result: Vec<u8>)
    ensures
        result@ == key_bytes(key),
{
    let bytes: Vec<u8> = match key.code {
        KeyCode::Char(ch) => {
            if key.modifiers.control {
                match control_byte(ch) {
                    Some(byte) => vec![byte],
                    None => Vec::new(),
                }
            } else {
                let mut text = String::new();
                text.push(ch);
                assert(text@ =~= seq![ch]);
                text.as_str().as_bytes_vec()
            }
        },
        KeyCode::Enter => vec![0x0d],
        KeyCode::Backspace => vec![0x7f],
        KeyCode::Tab => vec![0x09],
        KeyCode::Esc => vec![0x1b],
        KeyCode::Up => vec![0x1b, 0x5b, 0x41],
        KeyCode::Down => vec![0x1b, 0x5b, 0x42],
        KeyCode::Right => vec![0x1b, 0x5b, 0x43],
        KeyCode::Left => vec![0x1b, 0x5b, 0x44],
        KeyCode::Home => vec![0x1b, 0x5b, 0x48],
        KeyCode::End => vec![0x1b, 0x5b, 0x46],
        KeyCode::Delete => vec![0x1b, 0x5b, 0x33, 0x7e],
        KeyCode::Other => Vec::new(),
    };
    assert(bytes@ =~= key_bytes(key));
    bytes
}

/// A digit of a hexadecimal number.
pub open spec fn hex_digit(n: nat) -> char {
    if n < 10 {
        (48 + n) as char
    } else {
        (87 + n) as char
    }
}

/// How a control byte is written: `C-a` to `C-z` and `C-[`, and any other byte
/// in hexadecimal.
pub open spec fn key_text(byte: u8) -> Seq<char> {
    if 1 <= byte <= 26 {
        "C-"@.push((96 + byte) as char)
    } else if byte == 0x1b {
        "C-["@
    } else {
        "0x"@.push(hex_digit(byte as nat / 16)).push(hex_digit(byte as nat % 16))
    }
}

fn hex_char(n: u8) -> (result: char)
    requires
        n < 16,
    ensures
        result == hex_digit(n as nat),
{
    if n < 10 {
        (48 + n) as char
    } else {
        (87 + n) as char
    }
}

pub fn format_key_byte(byte: u8) -> (result: String)
    ensures
        result@ == key_text(byte),
{
    if 1 <= byte && byte <= 26 {
        let mut text = "C-".to_string();
        text.push((96 + byte) as char);
        text
    } else if byte == 0x1b {
        "C-[".to_string()
    } else {
        let mut text = "0x".to_string();
        text.push(hex_char(byte / 16));
        text.push(hex_char(byte % 16));
        text
    }
}

/// A key that is the prefix key sends the prefix byte.
pub proof fn law_prefix_key_sends_its_byte(key: KeyEvent, byte: u8)
    requires
        sends_byte(key, byte),
    ensures
        key_bytes(key) == seq![byte],
{
}

} // verus!
