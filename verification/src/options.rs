//! The words of the command line: directions, layouts, options and bindings.

use vstd::prelude::*;
#[allow(unused_imports)]
use vstd::string::*;

use crate::error::Error;
use crate::protocol::{BoundCommand, ResizeDirection, RmuxCommand, SplitAxis, SwapDirection};
#[allow(unused_imports)]
use crate::render::texts;
use crate::send_keys::control_key_byte;
use crate::text::{chars_of, lower_char, lower_string, same, trim};

verus! {

/// The layout that a word names.
pub open spec fn layout_named(value: Seq<char>) -> Option<SplitAxis> {
    if value == "even-horizontal"@ || value == "horizontal"@ {
        Some(SplitAxis::Horizontal)
    } else if value == "even-vertical"@ || value == "vertical"@ {
        Some(SplitAxis::Vertical)
    } else {
        None
    }
}

pub fn parse_layout(value: &str) -> (result: Result<SplitAxis, Error>)
    ensures
        match layout_named(value@) {
            Some(axis) => result == Ok::<SplitAxis, Error>(axis),
            None => result matches Err(Error::UnsupportedLayout { value: asked }) && asked@
                == value@,
        },
{
    if same(value, "even-horizontal") || same(value, "horizontal") {
        return Ok(SplitAxis::Horizontal);
    }
    if same(value, "even-vertical") || same(value, "vertical") {
        return Ok(SplitAxis::Vertical);
    }
    Err(Error::UnsupportedLayout { value: value.to_string() })
}

/// A layout is named by its own name.
pub proof fn law_layout_is_named(axis: SplitAxis)
    ensures
        layout_named(axis.layout_text()) == Some(axis),
{
    reveal_strlit("even-horizontal");
    reveal_strlit("horizontal");
    reveal_strlit("even-vertical");
    assert("even-vertical"@.len() == 13);
    assert("even-horizontal"@.len() == 15);
    assert("horizontal"@.len() == 10);
}

/// The one direction that is asked for.
pub fn parse_resize_direction(left: bool, right: bool, up: bool, down: bool) -> (result: Result<
    ResizeDirection,
    Error,
>)
    ensures
        result == match (left, right, up, down) {
            (true, false, false, false) => Ok::<ResizeDirection, Error>(ResizeDirection::Left),
            (false, true, false, false) => Ok(ResizeDirection::Right),
            (false, false, true, false) => Ok(ResizeDirection::Up),
            (false, false, false, true) => Ok(ResizeDirection::Down),
            (false, false, false, false) => Err(Error::ResizeDirectionMissing),
            _ => Err(Error::ResizeDirectionRepeated),
        },
{
    match (left, right, up, down) {
        (true, false, false, false) => Ok(ResizeDirection::Left),
        (false, true, false, false) => Ok(ResizeDirection::Right),
        (false, false, true, false) => Ok(ResizeDirection::Up),
        (false, false, false, true) => Ok(ResizeDirection::Down),
        (false, false, false, false) => Err(Error::ResizeDirectionMissing),
        _ => Err(Error::ResizeDirectionRepeated),
    }
}

/// The one direction that is asked for.
pub fn parse_swap_direction(previous: bool, next: bool) -> (result: Result<SwapDirection, Error>)
    ensures
        result == match (previous, next) {
            (true, false) => Ok::<SwapDirection, Error>(SwapDirection::Previous),
            (false, true) => Ok(SwapDirection::Next),
            (false, false) => Err(Error::SwapDirectionMissing),
            (true, true) => Err(Error::SwapDirectionRepeated),
        },
{
    match (previous, next) {
        (true, false) => Ok(SwapDirection::Previous),
        (false, true) => Ok(SwapDirection::Next),
        (false, false) => Err(Error::SwapDirectionMissing),
        (true, true) => Err(Error::SwapDirectionRepeated),
    }
}

/// Whether a word says on or off; capitals do not matter.
pub open spec fn switch_read(value: Seq<char>) -> Option<bool> {
    let word = crate::text::lowered(value);
    if word == "on"@ || word == "1"@ || word == "true"@ {
        Some(true)
    } else if word == "off"@ || word == "0"@ || word == "false"@ {
        Some(false)
    } else {
        None
    }
}

pub fn parse_on_off(value: &str) -> (result: Result<bool, Error>)
    ensures
        result == match switch_read(value@) {
            Some(on) => Ok::<bool, Error>(on),
            None => Err(Error::ExpectedOnOff),
        },
{
    let word = lower_string(value);
    let word = word.as_str();
    if same(word, "on") || same(word, "1") || same(word, "true") {
        return Ok(true);
    }
    if same(word, "off") || same(word, "0") || same(word, "false") {
        return Ok(false);
    }
    Err(Error::ExpectedOnOff)
}

/// Whether a window option is the one there is.
pub open spec fn synchronizes(option: Seq<char>) -> bool {
    option == "synchronize-panes"@ || option == "synchronize_panes"@
}

pub fn parse_window_option(option: &str, value: &str) -> (result: Result<RmuxCommand, Error>)
    ensures
        if synchronizes(option@) {
            match switch_read(value@) {
                Some(enabled) => result == Ok::<RmuxCommand, Error>(
                    RmuxCommand::SetSynchronizePanes { enabled },
                ),
                None => result == Err::<RmuxCommand, Error>(Error::ExpectedOnOff),
            }
        } else {
            result matches Err(Error::UnsupportedWindowOption { option: asked }) && asked@
                == option@
        },
{
    if same(option, "synchronize-panes") || same(option, "synchronize_panes") {
        return match parse_on_off(value) {
            Ok(enabled) => Ok(RmuxCommand::SetSynchronizePanes { enabled }),
            Err(error) => Err(error),
        };
    }
    Err(Error::UnsupportedWindowOption { option: option.to_string() })
}

/// The command that a value sets as the default one: none for an empty value
/// and for the word `default`.
pub open spec fn default_command_read(value: Seq<char>) -> Option<Seq<char>> {
    if value.len() == 0 || value == "default"@ {
        None
    } else {
        Some(value)
    }
}

pub fn parse_default_command(value: &str) -> (result: Option<String>)
    ensures
        crate::session::optional_text(result) == default_command_read(value@),
{
    if chars_of(value).len() == 0 || same(value, "default") {
        None
    } else {
        Some(value.to_string())
    }
}

/// Whether a text reads `C-` and one more character; capitals do not matter.
pub open spec fn is_control_text(text: Seq<char>) -> bool {
    text.len() == 3 && crate::text::lower(text[0]) == 'c' && text[1] == '-'
}

pub fn parse_prefix_key(value: &str) -> (result: Result<u8, Error>)
    ensures
        ({
            let text = crate::text::trimmed(value@);
            if is_control_text(text) {
                match crate::send_keys::control_key(crate::text::lower(text[2])) {
                    Some(byte) => result == Ok::<u8, Error>(byte),
                    None => result matches Err(Error::UnsupportedPrefixControl { value: asked })
                        && asked@ == text,
                }
            } else {
                result matches Err(Error::UnsupportedPrefixKey { value: asked }) && asked@ == text
            }
        }),
{
    let text = trim(value);
    let chars = chars_of(text.as_str());
    if chars.len() == 3 && lower_char(chars[0]) == 'c' && chars[1] == '-' {
        return match control_key_byte(lower_char(chars[2])) {
            Some(byte) => Ok(byte),
            None => Err(Error::UnsupportedPrefixControl { value: text }),
        };
    }
    Err(Error::UnsupportedPrefixKey { value: text })
}

/// A prefix key that is shown as `C-` and a letter, or as `C-[`, is set by what
/// is shown.
pub proof fn law_shown_prefix_key_is_read(byte: u8)
    requires
        1 <= byte <= 26 || byte == 0x1b,
    ensures
        ({
            let text = crate::text::trimmed(crate::keys::key_text(byte));
            &&& text == crate::keys::key_text(byte)
            &&& is_control_text(text)
            &&& crate::send_keys::control_key(crate::text::lower(text[2])) == Some(byte)
        }),
{
    reveal_strlit("C-");
    reveal_strlit("C-[");
    let text = crate::keys::key_text(byte);
    assert(text.len() == 3 && text[0] == 'C' && text[1] == '-');
    assert(!crate::text::white_space(text[0]));
    assert(crate::text::trimmed_start(text) == text);
    assert(text.last() == text[2]);
    if byte == 0x1b {
        assert(text[2] == '[');
    } else {
        assert(text[2] == (96 + byte) as char);
    }
    assert(crate::text::trimmed_end(text) == text);
}

/// Whether a session option is the default command.
pub open spec fn sets_default_command(option: Seq<char>) -> bool {
    option == "default-command"@ || option == "default_command"@
}

/// Whether a session option is the prefix key.
pub open spec fn sets_prefix(option: Seq<char>) -> bool {
    option == "prefix"@ || option == "prefix-key"@ || option == "prefix_key"@
}

pub fn parse_session_option(option: &str, value: &str) -> (result: Result<RmuxCommand, Error>)
    ensures
        if sets_default_command(option@) {
            result matches Ok(RmuxCommand::SetDefaultCommand { command })
                && crate::session::optional_text(command) == default_command_read(value@)
        } else if sets_prefix(option@) {
            let text = crate::text::trimmed(value@);
            if is_control_text(text) {
                match crate::send_keys::control_key(crate::text::lower(text[2])) {
                    Some(key) => result == Ok::<RmuxCommand, Error>(
                        RmuxCommand::SetPrefixKey { key },
                    ),
                    None => result matches Err(Error::UnsupportedPrefixControl { value: asked })
                        && asked@ == text,
                }
            } else {
                result matches Err(Error::UnsupportedPrefixKey { value: asked }) && asked@ == text
            }
        } else {
            result matches Err(Error::UnsupportedSessionOption { option: asked }) && asked@
                == option@
        },
{
    if same(option, "default-command") || same(option, "default_command") {
        return Ok(RmuxCommand::SetDefaultCommand { command: parse_default_command(value) });
    }
    if same(option, "prefix") || same(option, "prefix-key") || same(option, "prefix_key") {
        return match parse_prefix_key(value) {
            Ok(key) => Ok(RmuxCommand::SetPrefixKey { key }),
            Err(error) => Err(error),
        };
    }
    Err(Error::UnsupportedSessionOption { option: option.to_string() })
}

/// Whether some words after the first ask for a split side by side.
pub open spec fn asks_horizontal(tokens: Seq<Seq<char>>) -> bool {
    exists|i: int|
        1 <= i < tokens.len() && (#[trigger] tokens[i] == "--horizontal"@ || tokens[i] == "-h"@)
}

/// The command that some words ask to bind a key to.
pub open spec fn bound_command_read(tokens: Seq<Seq<char>>) -> Option<BoundCommand> {
    if tokens.len() == 0 {
        None
    } else if tokens[0] == "split-window"@ {
        Some(
            if asks_horizontal(tokens) {
                BoundCommand::SplitHorizontal
            } else {
                BoundCommand::SplitVertical
            },
        )
    } else if tokens[0] == "new-window"@ {
        Some(BoundCommand::NewWindow)
    } else if tokens[0] == "next-pane"@ {
        Some(BoundCommand::NextPane)
    } else if tokens[0] == "previous-pane"@ {
        Some(BoundCommand::PreviousPane)
    } else if tokens[0] == "kill-pane"@ {
        Some(BoundCommand::KillPane)
    } else if tokens[0] == "detach-client"@ || tokens[0] == "detach"@ {
        Some(BoundCommand::DetachClient)
    } else if tokens[0] == "last-window"@ {
        Some(BoundCommand::LastWindow)
    } else if tokens[0] == "select-layout"@ && tokens.len() > 1 && tokens[1] == "next"@ {
        Some(BoundCommand::ToggleLayout)
    } else {
        None
    }
}

fn holds_horizontal(tokens: &[String]) -> (result: bool)
    requires
        tokens@.len() > 0,
    ensures
        result == asks_horizontal(texts(tokens@)),
{
    let mut i: usize = 1;
    while i < tokens.len()
        invariant
            1 <= i <= tokens@.len(),
            forall|j: int|
                1 <= j < i ==> (#[trigger] texts(tokens@)[j]) != "--horizontal"@ && texts(
                    tokens@,
                )[j] != "-h"@,
        decreases tokens@.len() - i,
    {
        assert(texts(tokens@)[i as int] == tokens@[i as int]@);
        if same(tokens[i].as_str(), "--horizontal") || same(tokens[i].as_str(), "-h") {
            return true;
        }
        i = i + 1;
    }
    false
}

pub fn parse_bound_command(tokens: &[String]) -> (result: Result<BoundCommand, Error>)
    ensures
        match bound_command_read(texts(tokens@)) {
            Some(command) => result == Ok::<BoundCommand, Error>(command),
            None => if tokens@.len() == 0 {
                result == Err::<BoundCommand, Error>(Error::BindKeyNeedsCommand)
            } else {
                result matches Err(Error::UnsupportedBindKeyCommand { command }) && command@
                    == tokens@[0]@
            },
        },
{
    if tokens.len() == 0 {
        return Err(Error::BindKeyNeedsCommand);
    }
    assert(texts(tokens@)[0] == tokens@[0]@);
    let command = tokens[0].as_str();
    if same(command, "split-window") {
        return Ok(
            if holds_horizontal(tokens) {
                BoundCommand::SplitHorizontal
            } else {
                BoundCommand::SplitVertical
            },
        );
    }
    if same(command, "new-window") {
        return Ok(BoundCommand::NewWindow);
    }
    if same(command, "next-pane") {
        return Ok(BoundCommand::NextPane);
    }
    if same(command, "previous-pane") {
        return Ok(BoundCommand::PreviousPane);
    }
    if same(command, "kill-pane") {
        return Ok(BoundCommand::KillPane);
    }
    if same(command, "detach-client") || same(command, "detach") {
        return Ok(BoundCommand::DetachClient);
    }
    if same(command, "last-window") {
        return Ok(BoundCommand::LastWindow);
    }
    if same(command, "select-layout") && tokens.len() > 1 {
        assert(texts(tokens@)[1] == tokens@[1]@);
        if same(tokens[1].as_str(), "next") {
            return Ok(BoundCommand::ToggleLayout);
        }
    }
    Err(Error::UnsupportedBindKeyCommand { command: command.to_string() })
}

/// The words of a command that a key can be bound to.
pub open spec fn command_words(command: BoundCommand) -> Seq<Seq<char>> {
    match command {
        BoundCommand::SplitHorizontal => seq!["split-window"@, "--horizontal"@],
        BoundCommand::SplitVertical => seq!["split-window"@],
        BoundCommand::NewWindow => seq!["new-window"@],
        BoundCommand::NextPane => seq!["next-pane"@],
        BoundCommand::PreviousPane => seq!["previous-pane"@],
        BoundCommand::KillPane => seq!["kill-pane"@],
        BoundCommand::DetachClient => seq!["detach-client"@],
        BoundCommand::LastWindow => seq!["last-window"@],
        BoundCommand::ToggleLayout => seq!["select-layout"@, "next"@],
    }
}

/// Words with a blank between each two.
pub open spec fn spaced(words: Seq<Seq<char>>) -> Seq<char>
    decreases words.len(),
{
    if words.len() == 0 {
        seq![]
    } else if words.len() == 1 {
        words[0]
    } else {
        words[0] + seq![' '] + spaced(words.skip(1))
    }
}

/// What is listed for a bound key is what binds it.
pub proof fn law_listed_command_is_read(command: BoundCommand)
    ensures
        spaced(command_words(command)) == command.command_text(),
        bound_command_read(command_words(command)) == Some(command),
{
    reveal_strlit("split-window");
    reveal_strlit("--horizontal");
    reveal_strlit("split-window --horizontal");
    reveal_strlit("new-window");
    reveal_strlit("next-pane");
    reveal_strlit("previous-pane");
    reveal_strlit("kill-pane");
    reveal_strlit("detach-client");
    reveal_strlit("detach");
    reveal_strlit("last-window");
    reveal_strlit("select-layout");
    reveal_strlit("next");
    reveal_strlit("select-layout next");
    let words = command_words(command);
    assert("split-window"@[0] == 's' && "split-window"@.len() == 12);
    assert("new-window"@[0] == 'n' && "new-window"@.len() == 10);
    assert("next-pane"@[0] == 'n' && "next-pane"@.len() == 9);
    assert("previous-pane"@[0] == 'p' && "previous-pane"@.len() == 13);
    assert("kill-pane"@[0] == 'k' && "kill-pane"@.len() == 9);
    assert("detach-client"@[0] == 'd' && "detach-client"@.len() == 13);
    assert("detach"@[0] == 'd' && "detach"@.len() == 6);
    assert("last-window"@[0] == 'l' && "last-window"@.len() == 11);
    assert("select-layout"@[0] == 's' && "select-layout"@.len() == 13);
    match command {
        BoundCommand::SplitHorizontal => {
            assert(words[1] == "--horizontal"@);
            assert(words.skip(1) =~= seq!["--horizontal"@]);
            assert(spaced(words.skip(1)) == "--horizontal"@);
            assert(spaced(words) =~= "split-window --horizontal"@);
        },
        BoundCommand::ToggleLayout => {
            assert(words[1] == "next"@);
            assert(words.skip(1) =~= seq!["next"@]);
            assert(spaced(words.skip(1)) == "next"@);
            assert(spaced(words) =~= "select-layout next"@);
        },
        _ => {},
    }
}

} // verus!
