//! What keys are for: after the prefix key, and with control, they do what commands do;
//! all others are typed.

use vstd::prelude::*;
#[allow(unused_imports)]
use vstd::string::*;

#[allow(unused_imports)]
use crate::error::Error;
#[allow(unused_imports)]
use crate::keys::{key_bytes, sends_byte, KeyCode, KeyEvent};
#[allow(unused_imports)]
use crate::protocol::{BoundCommand, ResizeDirection, RmuxCommand, SplitAxis, SwapDirection};
#[allow(unused_imports)]
use crate::state::{EffectState, ExitReason, RmuxState, Step};

verus! {

/// The state with the prefix key let go of.
pub open spec fn unprefixed(state: RmuxState) -> RmuxState {
    RmuxState { prefix: false, ..state }
}

/// Whether a key after the prefix key is one of two, and neither the prefix key itself nor
/// bound to something else.
pub open spec fn is_free(state: RmuxState, key: KeyEvent) -> bool {
    &&& state.prefix
    &&& !sends_byte(key, state.session.prefix_key)
    &&& !(key.code is Char && key.modifiers.empty() && crate::session::binding_of(
        state.session.bindings,
        key.code->Char_0,
    ) is Some)
}

/// Whether a key does what a command does; where the command is refused, a message says
/// so and nothing else changes.
pub open spec fn runs(step: Step, command: Step, message: Seq<char>) -> bool {
    match command.1 {
        Ok(_) => step == command,
        Err(_) => {
            &&& step.1 == Ok::<EffectState, Error>(EffectState::Nothing)
            &&& step.0 == RmuxState { messages: step.0.messages, ..command.0 }
            &&& step.0.messages.len() > 0 && step.0.messages.last() == message
        },
    }
}

/// After the prefix key `|` and `%` split side by side, `-` and `"` one above the other,
/// and `c` makes a window, as the commands do.
pub proof fn law_keys_split_and_open(state: RmuxState, key: KeyEvent)
    requires
        is_free(state, key),
    ensures
        ({
            let plain = unprefixed(state);
            let step = state.key_handled(key);
            &&& key.code == KeyCode::Char('|') || key.code == KeyCode::Char('%') ==> step
                == plain.command_applied(
                RmuxCommand::SplitWindow { axis: SplitAxis::Horizontal, command: None },
            )
            &&& key.code == KeyCode::Char('-') || key.code == KeyCode::Char('"') ==> step
                == plain.command_applied(
                RmuxCommand::SplitWindow { axis: SplitAxis::Vertical, command: None },
            )
            &&& key.code == KeyCode::Char('c') ==> step == plain.command_applied(
                RmuxCommand::NewWindow { name: None, command: None },
            )
        }),
{
}

/// After the prefix key `n` and right go to the next pane, `p` and left to the previous
/// one, `l` to the last window and a digit to the window of that number, as the commands
/// do.
pub proof fn law_keys_go_about(state: RmuxState, key: KeyEvent)
    requires
        is_free(state, key),
    ensures
        ({
            let plain = unprefixed(state);
            let step = state.key_handled(key);
            &&& key.code == KeyCode::Char('n') || key.code == KeyCode::Right ==> step
                == plain.command_applied(RmuxCommand::NextPane)
            &&& key.code == KeyCode::Char('p') || key.code == KeyCode::Left ==> step
                == plain.command_applied(RmuxCommand::PreviousPane)
            &&& key.code == KeyCode::Char('l') ==> runs(
                step,
                plain.command_applied(RmuxCommand::LastWindow),
                "no last window"@,
            )
            &&& key.code is Char && '1' <= key.code->Char_0 <= '9' ==> {
                let index = (key.code->Char_0 as int - '1' as int) as usize;
                step == if index < state.session.windows.len() {
                    plain.command_applied(RmuxCommand::SelectWindow { index })
                } else {
                    (plain, Ok::<EffectState, Error>(EffectState::Nothing))
                }
            }
        }),
{
}

/// After the prefix key `H`, `J`, `K` and `L` resize the active pane left, down, up and
/// right by one, `{` and `}` swap it with the one before and the one after, and `x` kills
/// it, as the commands do.
pub proof fn law_keys_change_panes(state: RmuxState, key: KeyEvent)
    requires
        is_free(state, key),
    ensures
        ({
            let plain = unprefixed(state);
            let step = state.key_handled(key);
            &&& forall|direction: ResizeDirection|
                key.code == KeyCode::Char(
                    match direction {
                        ResizeDirection::Left => 'H',
                        ResizeDirection::Down => 'J',
                        ResizeDirection::Up => 'K',
                        ResizeDirection::Right => 'L',
                    },
                ) ==> runs(
                    step,
                    #[trigger] plain.command_applied(
                        RmuxCommand::ResizePane { direction, amount: 1 },
                    ),
                    "pane cannot be resized"@,
                )
            &&& key.code == KeyCode::Char('{') ==> runs(
                step,
                plain.command_applied(
                    RmuxCommand::SwapPane { direction: SwapDirection::Previous },
                ),
                "pane cannot be swapped"@,
            )
            &&& key.code == KeyCode::Char('}') ==> runs(
                step,
                plain.command_applied(RmuxCommand::SwapPane { direction: SwapDirection::Next }),
                "pane cannot be swapped"@,
            )
            &&& key.code == KeyCode::Char('x') ==> runs(
                step,
                plain.command_applied(RmuxCommand::KillPane { all_other: false }),
                "last pane kept alive"@,
            )
        }),
{
}

/// After the prefix key the blank lays the panes out evenly along the axis that they were
/// not laid out along, `d` detaches and `q` quits, and a key that means nothing says so.
pub proof fn law_other_keys_after_prefix(state: RmuxState, key: KeyEvent)
    requires
        is_free(state, key),
    ensures
        ({
            let plain = unprefixed(state);
            let step = state.key_handled(key);
            let window = state.session.windows[state.session.active as int];
            let done = Ok::<EffectState, Error>(EffectState::Nothing);
            &&& key.code == KeyCode::Char(' ') ==> step == plain.command_applied(
                RmuxCommand::SelectLayout {
                    axis: if window.axis == SplitAxis::Horizontal {
                        SplitAxis::Vertical
                    } else {
                        SplitAxis::Horizontal
                    },
                },
            )
            &&& key.code == KeyCode::Char('d') ==> step == (
                RmuxState { exit_reason: Some(ExitReason::Detach), ..plain },
                done,
            )
            &&& key.code == KeyCode::Char('q') ==> step == (
                RmuxState { exit_reason: Some(ExitReason::Quit), ..plain },
                done,
            )
            &&& (match key.code {
                KeyCode::Char(ch) => !"|%-\"cnpl HJKL{}xdq0123456789"@.contains(ch),
                KeyCode::Right | KeyCode::Left => false,
                _ => true,
            }) ==> {
                &&& step.1 == done
                &&& step.0 == RmuxState { messages: step.0.messages, ..plain }
                &&& step.0.messages.last() == "unknown prefix command"@
            }
        }),
{
    let known = "|%-\"cnpl HJKL{}xdq0123456789"@;
    reveal_strlit("|%-\"cnpl HJKL{}xdq0123456789");
    if let KeyCode::Char(ch) = key.code {
        if !known.contains(ch) {
            assert forall|i: int| 0 <= i < known.len() implies ch != #[trigger] known[i] by {
                assert(known.contains(known[i]));
            }
            assert(known[0] == '|' && known[1] == '%' && known[2] == '-' && known[3] == '"');
            assert(known[4] == 'c' && known[5] == 'n' && known[6] == 'p' && known[7] == 'l');
            assert(known[8] == ' ' && known[9] == 'H' && known[10] == 'J' && known[11] == 'K');
            assert(known[12] == 'L' && known[13] == '{' && known[14] == '}' && known[15] == 'x');
            assert(known[16] == 'd' && known[17] == 'q' && known[18] == '0' && known[19] == '1');
            assert(known[20] == '2' && known[21] == '3' && known[22] == '4' && known[23] == '5');
            assert(known[24] == '6' && known[25] == '7' && known[26] == '8' && known[27] == '9');
        }
    }
}

/// A key that was bound does what the command that it is bound to does.
pub proof fn law_bound_keys_run_their_commands(state: RmuxState, key: KeyEvent)
    requires
        state.prefix,
        !sends_byte(key, state.session.prefix_key),
        key.code is Char,
        key.modifiers.empty(),
        crate::session::binding_of(state.session.bindings, key.code->Char_0) is Some,
    ensures
        ({
            let plain = unprefixed(state);
            let step = state.key_handled(key);
            let window = state.session.windows[state.session.active as int];
            match crate::session::binding_of(state.session.bindings, key.code->Char_0)->0 {
                BoundCommand::SplitHorizontal => step == plain.command_applied(
                    RmuxCommand::SplitWindow { axis: SplitAxis::Horizontal, command: None },
                ),
                BoundCommand::SplitVertical => step == plain.command_applied(
                    RmuxCommand::SplitWindow { axis: SplitAxis::Vertical, command: None },
                ),
                BoundCommand::NewWindow => step == plain.command_applied(
                    RmuxCommand::NewWindow { name: None, command: None },
                ),
                BoundCommand::NextPane => step == plain.command_applied(RmuxCommand::NextPane),
                BoundCommand::PreviousPane => step == plain.command_applied(
                    RmuxCommand::PreviousPane,
                ),
                BoundCommand::KillPane => runs(
                    step,
                    plain.command_applied(RmuxCommand::KillPane { all_other: false }),
                    "last pane kept alive"@,
                ),
                BoundCommand::DetachClient => step == (
                    RmuxState { exit_reason: Some(ExitReason::Detach), ..plain },
                    Ok::<EffectState, Error>(EffectState::Nothing),
                ),
                BoundCommand::LastWindow => runs(
                    step,
                    plain.command_applied(RmuxCommand::LastWindow),
                    "no last window"@,
                ),
                BoundCommand::ToggleLayout => step == plain.command_applied(
                    RmuxCommand::SelectLayout {
                        axis: if window.axis == SplitAxis::Horizontal {
                            SplitAxis::Vertical
                        } else {
                            SplitAxis::Horizontal
                        },
                    },
                ),
            }
        }),
{
}

/// Without the prefix key control and `d` split side by side, with shift one above the
/// other, control and `t` make a window, and control and `w` close the active pane, as the
/// commands do.
pub proof fn law_shortcuts_do_what_commands_do(state: RmuxState, key: KeyEvent)
    requires
        !state.prefix,
        !sends_byte(key, state.session.prefix_key),
        key.code is Char,
        key.modifiers.control || key.modifiers.super_key,
    ensures
        ({
            let ch = key.code->Char_0;
            let step = state.key_handled(key);
            &&& (ch == 'd' || ch == 'D') && !key.modifiers.shift ==> step == state.command_applied(
                RmuxCommand::SplitWindow { axis: SplitAxis::Horizontal, command: None },
            )
            &&& (ch == 'd' || ch == 'D') && key.modifiers.shift ==> step == state.command_applied(
                RmuxCommand::SplitWindow { axis: SplitAxis::Vertical, command: None },
            )
            &&& ch == 't' || ch == 'T' ==> step == state.command_applied(
                RmuxCommand::NewWindow { name: None, command: None },
            )
            &&& ch == 'w' || ch == 'W' ==> runs(
                step,
                state.command_applied(RmuxCommand::KillPane { all_other: false }),
                "last pane kept alive"@,
            )
        }),
{
}

/// A character that is typed without modifiers goes to the terminal as it is, and changes
/// nothing else; the prefix key is kept for the next key.
pub proof fn law_plain_keys_are_typed(state: RmuxState, key: KeyEvent)
    requires
        !state.prefix,
    ensures
        key.code is Char && key.modifiers.empty() ==> state.key_handled(key) == (
            state,
            Ok::<EffectState, Error>(state.typed(vstd::utf8::encode_utf8(seq![key.code->Char_0]))),
        ),
        sends_byte(key, state.session.prefix_key) ==> state.key_handled(key) == (
            RmuxState { prefix: true, ..state },
            Ok::<EffectState, Error>(EffectState::Nothing),
        ),
{
    if let KeyCode::Char(ch) = key.code {
        vstd::utf8::encode_utf8_first_scalar(seq![ch]);
    }
}

/// Control and a letter, small or capital, send the number of the letter in the alphabet;
/// control and `[` send what escape sends.
pub proof fn law_control_letters_send_their_number(key: KeyEvent, n: int)
    requires
        key.modifiers.control,
        1 <= n <= 26,
    ensures
        key.code is Char && (key.code->Char_0 as int == 'a' as int + n - 1
            || key.code->Char_0 as int == 'A' as int + n - 1) ==> key_bytes(key) == seq![n as u8],
        key.code == KeyCode::Char('[') ==> key_bytes(key) == key_bytes(
            KeyEvent { code: KeyCode::Esc, ..key },
        ),
{
}

/// Arrows and the other keys of their pad send escape, `[` and a letter of their own that
/// tells them apart: `A` to `D` for up, down, right and left, `H` and `F` for home and end;
/// enter, tab, backspace and escape send their control characters.
pub proof fn law_special_keys_send_their_sequences(key: KeyEvent)
    ensures
        key.code is Up ==> key_bytes(key) == seq![0x1bu8, '[' as u8, 'A' as u8],
        key.code is Down ==> key_bytes(key) == seq![0x1bu8, '[' as u8, 'B' as u8],
        key.code is Right ==> key_bytes(key) == seq![0x1bu8, '[' as u8, 'C' as u8],
        key.code is Left ==> key_bytes(key) == seq![0x1bu8, '[' as u8, 'D' as u8],
        key.code is Home ==> key_bytes(key) == seq![0x1bu8, '[' as u8, 'H' as u8],
        key.code is End ==> key_bytes(key) == seq![0x1bu8, '[' as u8, 'F' as u8],
        key.code is Delete ==> key_bytes(key) == seq![0x1bu8, '[' as u8, '3' as u8, '~' as u8],
        key.code is Enter ==> key_bytes(key) == seq!['\r' as u8],
        key.code is Tab ==> key_bytes(key) == seq!['\t' as u8],
        key.code is Backspace ==> key_bytes(key) == seq![0x7fu8],
        key.code is Esc ==> key_bytes(key) == seq![0x1bu8],
        key.code is Other ==> key_bytes(key).len() == 0,
{
}

/// The characters that the digit keys from one to nine give with shift held.
pub open spec fn shifted_digits() -> Seq<char> {
    seq!['!', '@', '#', '$', '%', '^', '&', '*', '(']
}

/// With control, the command key or alt a digit selects the window of that number, with
/// shift held too. Where there is none, what is told is what a command for it is told, and
/// nothing else changes.
pub proof fn law_digits_select_windows(state: RmuxState, digit: KeyEvent, shifted: KeyEvent, n: int)
    requires
        1 <= n <= 9,
        !state.prefix,
        digit.modifiers.control || digit.modifiers.super_key || digit.modifiers.alt,
        shifted.modifiers.control || shifted.modifiers.super_key || shifted.modifiers.alt,
        digit.code is Char && digit.code->Char_0 as int == '0' as int + n,
        shifted.code == KeyCode::Char(shifted_digits()[n - 1]),
    ensures
        ({
            let index = (n - 1) as usize;
            let (after, told) = state.key_handled(digit);
            &&& state.key_handled(shifted) == (after, told)
            &&& told == Ok::<EffectState, Error>(EffectState::Nothing)
            &&& index < state.session.windows.len() ==> (after, told) == state.command_applied(
                RmuxCommand::SelectWindow { index },
            )
            &&& index >= state.session.windows.len() ==> {
                &&& after == RmuxState { messages: after.messages, ..state }
                &&& after.messages.len() > 0
                &&& state.command_applied(RmuxCommand::SelectWindow { index }).1 matches Err(error)
                    && after.messages.last() == error.text()
            }
        }),
{
    let ch = shifted_digits()[n - 1];
    assert(n == 1 ==> ch == '!');
    assert(n == 2 ==> ch == '@');
    assert(n == 3 ==> ch == '#');
    assert(n == 4 ==> ch == '$');
    assert(n == 5 ==> ch == '%');
    assert(n == 6 ==> ch == '^');
    assert(n == 7 ==> ch == '&');
    assert(n == 8 ==> ch == '*');
    assert(n == 9 ==> ch == '(');
}

} // verus!
