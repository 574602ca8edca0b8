//! What the command line is for: each command is asked of the session, window and pane
//! that its target names, with what its flags say.

use vstd::prelude::*;
#[allow(unused_imports)]
use vstd::string::*;

#[allow(unused_imports)]
use crate::cli::{answers, Action, Args, Command};
#[allow(unused_imports)]
use crate::error::{Error, TargetPart};
#[allow(unused_imports)]
use crate::format::CaptureMode;
#[allow(unused_imports)]
use crate::protocol::{
    ClientRequest, PaneView, ResizeDirection, RmuxCommand, SplitAxis, SwapDirection,
    WindowTabView,
};
#[allow(unused_imports)]
use crate::render::texts;
#[allow(unused_imports)]
use crate::target::{
    first_target_step, pane_read, pane_with_id, step_asks, step_to_pane, target_read, window_named,
    window_read, window_with_id, PaneSelector, TargetFault, TargetState, TargetStep, WindowChoice,
};
#[allow(unused_imports)]
use crate::text::{decimal, lower, lowered, number_within};

verus! {

/// What the target of a command line says: that text, or else the session of the command
/// line, read with that session as the default.
pub open spec fn meant(args: Args, target: Option<String>) -> Result<TargetState, TargetFault> {
    target_read(
        match target {
            Some(target) => target@,
            None => args.session@,
        },
        args.session@,
    )
}

/// Whether a command is asked for, of that target, and nothing is printed.
pub open spec fn asks(
    result: Result<Action, Error>,
    target: TargetState,
    command: RmuxCommand,
) -> bool {
    result matches Ok(Action::Command { target: own, command: asked, print }) && own@ == target
        && asked == command && print is None
}

/// `resize-pane` and `swap-pane` go the way of their one flag, and `swap-window` too; with
/// none or more than one they are refused.
pub proof fn law_flags_say_the_direction(
    args: Args,
    result: Result<Action, Error>,
    target: Option<String>,
    read: TargetState,
    amount: u16,
)
    requires
        answers(args, result),
        meant(args, target) == Ok::<TargetState, TargetFault>(read),
    ensures
        args.command == Some(
            Command::ResizePane {
                target,
                left: true,
                right: false,
                up: false,
                down: false,
                amount,
            },
        ) ==> asks(
            result,
            read,
            RmuxCommand::ResizePane { direction: ResizeDirection::Left, amount },
        ),
        args.command == Some(
            Command::ResizePane {
                target,
                left: false,
                right: true,
                up: false,
                down: false,
                amount,
            },
        ) ==> asks(
            result,
            read,
            RmuxCommand::ResizePane { direction: ResizeDirection::Right, amount },
        ),
        args.command == Some(
            Command::ResizePane {
                target,
                left: false,
                right: false,
                up: true,
                down: false,
                amount,
            },
        ) ==> asks(
            result,
            read,
            RmuxCommand::ResizePane { direction: ResizeDirection::Up, amount },
        ),
        args.command == Some(
            Command::ResizePane {
                target,
                left: false,
                right: false,
                up: false,
                down: true,
                amount,
            },
        ) ==> asks(
            result,
            read,
            RmuxCommand::ResizePane { direction: ResizeDirection::Down, amount },
        ),
        args.command matches Some(
            Command::ResizePane { target: own, left, right, up, down, .. },
        ) && own == target && (left && (right || up || down) || right && (up || down) || up && down
            || !left && !right && !up && !down) ==> result is Err,
        args.command == Some(Command::SwapPane { target, previous: true, next: false }) ==> asks(
            result,
            read,
            RmuxCommand::SwapPane { direction: SwapDirection::Previous },
        ),
        args.command == Some(Command::SwapPane { target, previous: false, next: true }) ==> asks(
            result,
            read,
            RmuxCommand::SwapPane { direction: SwapDirection::Next },
        ),
        args.command == Some(Command::SwapWindow { target, previous: true, next: false })
            ==> asks(result, read, RmuxCommand::SwapWindow { direction: SwapDirection::Previous }),
        args.command == Some(Command::SwapWindow { target, previous: false, next: true })
            ==> asks(result, read, RmuxCommand::SwapWindow { direction: SwapDirection::Next }),
        (args.command matches Some(Command::SwapPane { target: own, previous, next }) && own
            == target && previous == next) ==> result is Err,
        (args.command matches Some(Command::SwapWindow { target: own, previous, next }) && own
            == target && previous == next) ==> result is Err,
{
}

/// Windows and panes are counted from one on the command line.
pub proof fn law_places_are_counted_from_one(
    args: Args,
    result: Result<Action, Error>,
    target: Option<String>,
    read: TargetState,
    number: usize,
)
    requires
        answers(args, result),
        meant(args, target) == Ok::<TargetState, TargetFault>(read),
        number >= 1,
    ensures
        args.command == Some(Command::SelectWindow { target, index: number }) ==> asks(
            result,
            read,
            RmuxCommand::SelectWindow { index: (number - 1) as usize },
        ),
        args.command == Some(Command::SelectPane { target, index: number }) ==> asks(
            result,
            read,
            RmuxCommand::SelectPane { index: (number - 1) as usize },
        ),
        args.command == Some(Command::MoveWindow { target, index: number }) ==> asks(
            result,
            read,
            RmuxCommand::MoveWindow { index: (number - 1) as usize },
        ),
{
}

/// Commands without flags are asked for under their own names.
pub proof fn law_plain_commands_are_asked_for(
    args: Args,
    result: Result<Action, Error>,
    target: Option<String>,
    read: TargetState,
    name: String,
    command: Option<String>,
    all_other: bool,
)
    requires
        answers(args, result),
        meant(args, target) == Ok::<TargetState, TargetFault>(read),
    ensures
        args.command == Some(Command::NextWindow { target }) ==> asks(
            result,
            read,
            RmuxCommand::NextWindow,
        ),
        args.command == Some(Command::PreviousWindow { target }) ==> asks(
            result,
            read,
            RmuxCommand::PreviousWindow,
        ),
        args.command == Some(Command::LastWindow { target }) ==> asks(
            result,
            read,
            RmuxCommand::LastWindow,
        ),
        args.command == Some(Command::NextPane { target }) ==> asks(
            result,
            read,
            RmuxCommand::NextPane,
        ),
        args.command == Some(Command::PreviousPane { target }) ==> asks(
            result,
            read,
            RmuxCommand::PreviousPane,
        ),
        args.command == Some(Command::SendPrefix { target }) ==> asks(
            result,
            read,
            RmuxCommand::SendPrefix,
        ),
        args.command == Some(Command::KillWindow { target }) ==> asks(
            result,
            read,
            RmuxCommand::KillWindow,
        ),
        args.command == Some(Command::KillPane { target, all_other }) ==> asks(
            result,
            read,
            RmuxCommand::KillPane { all_other },
        ),
        args.command == Some(Command::RenameWindow { target, name }) ==> asks(
            result,
            read,
            RmuxCommand::RenameWindow { name },
        ),
        args.command == Some(Command::RenameSession { target, name }) ==> asks(
            result,
            read,
            RmuxCommand::RenameSession { name },
        ),
        args.command == Some(Command::RespawnPane { target, command }) ==> asks(
            result,
            read,
            RmuxCommand::RespawnPane { command },
        ),
        args.command == Some(Command::RespawnWindow { target, command }) ==> asks(
            result,
            read,
            RmuxCommand::RespawnWindow { command },
        ),
{
}

/// A new window has the name and the command asked for. A split is side by side where that
/// is asked for and one above the other where it is not. What was made is printed in the
/// format where that is asked for.
pub proof fn law_new_places_are_asked_for(
    args: Args,
    result: Result<Action, Error>,
    target: Option<String>,
    read: TargetState,
    name: Option<String>,
    command: Option<String>,
    horizontal: bool,
    print: bool,
    format: String,
)
    requires
        answers(args, result),
        meant(args, target) == Ok::<TargetState, TargetFault>(read),
        args.command == Some(Command::NewWindow { target, name, command, print, format })
            || args.command == Some(
            Command::SplitWindow { target, horizontal, command, print, format },
        ) || args.command == Some(Command::BreakPane { target, name, print, format }),
    ensures
        result matches Ok(Action::Command { target: own, command: asked, print: shown }) && {
            &&& own@ == read
            &&& print ==> shown == Some(format)
            &&& !print ==> shown is None
            &&& args.command is Some && args.command->0 is NewWindow ==> asked
                == RmuxCommand::NewWindow { name, command }
            &&& args.command is Some && args.command->0 is SplitWindow ==> asked
                == RmuxCommand::SplitWindow {
                axis: if horizontal {
                    SplitAxis::Horizontal
                } else {
                    SplitAxis::Vertical
                },
                command,
            }
            &&& args.command is Some && args.command->0 is BreakPane ==> asked
                == RmuxCommand::BreakPane { name }
        },
{
}

/// A target that cannot be read is refused, whatever is asked of it.
pub proof fn law_unreadable_target_is_refused(
    args: Args,
    result: Result<Action, Error>,
    target: Option<String>,
)
    requires
        answers(args, result),
        meant(args, target) is Err,
        args.command matches Some(command) && match command {
            Command::Attach { target: own } => own == target,
            Command::SendKeys { target: own, .. } => own == target,
            Command::NewWindow { target: own, .. } => own == target,
            Command::SplitWindow { target: own, .. } => own == target,
            Command::SelectWindow { target: own, .. } => own == target,
            Command::KillPane { target: own, .. } => own == target,
            Command::KillWindow { target: own } => own == target,
            Command::KillSession { target: own } => own == target,
            Command::CapturePane { target: own, .. } => own == target,
            Command::DisplayMessage { target: own, .. } => own == target,
            _ => false,
        },
    ensures
        result matches Err(error) && meant(args, target)->Err_0.told_by(error),
{
}

/// Keys are sent, panes captured, formats shown and sessions killed, attached to and waited
/// for where the target says.
pub proof fn law_other_commands_go_to_their_target(
    args: Args,
    result: Result<Action, Error>,
    target: Option<String>,
    read: TargetState,
)
    requires
        answers(args, result),
        meant(args, target) == Ok::<TargetState, TargetFault>(read),
    ensures
        match args.command {
            Some(Command::CapturePane { target: own, all_panes }) if own == target => result
                matches Ok(Action::Capture { target: at, mode }) && at@ == read && (mode
                == CaptureMode::AllPanes <==> all_panes),
            Some(Command::DisplayMessage { target: own, format }) if own == target => result
                matches Ok(Action::Display { target: at, format: shown }) && at@ == read && shown
                == format,
            Some(Command::ListPanes { target: own, format }) if own == target => result matches Ok(
                Action::ListPanes { target: at, format: shown },
            ) && at@ == read && shown == format,
            Some(Command::ListWindows { target: own, format }) if own == target => result
                matches Ok(Action::ListWindows { target: at, format: shown }) && at@ == read
                && shown == format,
            Some(Command::KillSession { target: own }) if own == target => result matches Ok(
                Action::KillSession { session },
            ) && session@ == read.session,
            Some(Command::DetachClient { target: own }) if own == target => result matches Ok(
                Action::DetachClient { target: at },
            ) && at@ == read,
            Some(Command::Attach { target: own }) if own == target => result matches Ok(
                Action::Run(options),
            ) && options.session@ == read.session && !options.create_if_missing && (
            options.initial_target matches Some(at) && at@ == read),
            Some(Command::WaitFor { target: own, pattern, timeout_ms }) if own == target => result
                matches Ok(Action::WaitFor { target: at, pattern: text, timeout_ms: limit })
                && at@ == read && text == pattern && limit == timeout_ms,
            Some(Command::SendKeys { target: own, literal, keys }) if own == target => {
                &&& literal ==> (result matches Ok(Action::SendKeys { target: at, bytes }) && at@
                    == read && bytes@ == vstd::utf8::encode_utf8(
                    crate::send_keys::joined(texts(keys@)),
                ))
                &&& !literal && crate::send_keys::tokens_bytes(texts(keys@)) is Ok ==> (result
                    matches Ok(Action::SendKeys { target: at, bytes }) && at@ == read && bytes@
                    == crate::send_keys::tokens_bytes(texts(keys@))->Ok_0)
            },
            _ => true,
        },
{
}

/// Layouts are asked for by name, with or without `even-` in front; other names are
/// refused.
pub proof fn law_layouts_are_asked_for_by_name(
    args: Args,
    result: Result<Action, Error>,
    target: Option<String>,
    read: TargetState,
    layout: String,
)
    requires
        answers(args, result),
        meant(args, target) == Ok::<TargetState, TargetFault>(read),
        args.command == Some(Command::SelectLayout { target, layout }),
    ensures
        layout@ == "even-horizontal"@ || layout@ == "horizontal"@ ==> asks(
            result,
            read,
            RmuxCommand::SelectLayout { axis: SplitAxis::Horizontal },
        ),
        layout@ == "even-vertical"@ || layout@ == "vertical"@ ==> asks(
            result,
            read,
            RmuxCommand::SelectLayout { axis: SplitAxis::Vertical },
        ),
        layout@ != "even-horizontal"@ && layout@ != "horizontal"@ && layout@ != "even-vertical"@
            && layout@ != "vertical"@ ==> result is Err,
{
    reveal_strlit("even-horizontal");
    reveal_strlit("horizontal");
    reveal_strlit("even-vertical");
    reveal_strlit("vertical");
    assert("even-vertical"@.len() == 13);
    assert("even-horizontal"@.len() == 15);
    assert("horizontal"@.len() == 10);
    assert("vertical"@.len() == 8);
}

/// Options are set by name: the panes of a window are synchronized or not, and a session is
/// given a prefix key or a command for its terminals. Capitals do not matter in what they
/// are set to, but for the command.
pub proof fn law_options_are_set_by_name(
    args: Args,
    result: Result<Action, Error>,
    target: Option<String>,
    read: TargetState,
    option: String,
    value: String,
    letter: char,
)
    requires
        answers(args, result),
        meant(args, target) == Ok::<TargetState, TargetFault>(read),
    ensures
        args.command == Some(Command::SetWindowOption { target, option, value }) && option@
            == "synchronize-panes"@ && (lowered(value@) == "on"@ || lowered(value@) == "true"@
            || value@ == "1"@) ==> asks(
            result,
            read,
            RmuxCommand::SetSynchronizePanes { enabled: true },
        ),
        args.command == Some(Command::SetWindowOption { target, option, value }) && option@
            == "synchronize-panes"@ && (lowered(value@) == "off"@ || lowered(value@) == "false"@
            || value@ == "0"@) ==> asks(
            result,
            read,
            RmuxCommand::SetSynchronizePanes { enabled: false },
        ),
        args.command == Some(Command::SetOption { target, option, value }) && option@
            == "prefix"@ && (value@ == seq!['C', '-', letter] || value@ == seq!['c', '-', letter])
            && 'a' <= lower(letter) <= 'z' ==> asks(
            result,
            read,
            RmuxCommand::SetPrefixKey { key: (lower(letter) as int - 'a' as int + 1) as u8 },
        ),
        args.command == Some(Command::SetOption { target, option, value }) && option@
            == "default-command"@ && value@.len() > 0 && value@ != "default"@ ==> (result matches Ok(
            Action::Command {
                target: own,
                command: RmuxCommand::SetDefaultCommand { command: Some(command) },
                print: None,
            },
        ) && own@ == read && command@ == value@),
        args.command == Some(Command::SetOption { target, option, value }) && option@
            == "default-command"@ && (value@.len() == 0 || value@ == "default"@) ==> asks(
            result,
            read,
            RmuxCommand::SetDefaultCommand { command: None },
        ),
{
    reveal_strlit("on");
    reveal_strlit("off");
    reveal_strlit("1");
    reveal_strlit("0");
    reveal_strlit("true");
    reveal_strlit("false");
    reveal_strlit("synchronize-panes");
    reveal_strlit("synchronize_panes");
    reveal_strlit("prefix");
    reveal_strlit("prefix-key");
    reveal_strlit("prefix_key");
    reveal_strlit("default-command");
    reveal_strlit("default_command");
    assert(lowered("1"@) =~= "1"@);
    assert(lowered("0"@) =~= "0"@);
    assert("0"@[0] == '0' && "1"@[0] == '1' && "0"@.len() == 1 && "false"@.len() == 5);
    assert("on"@.len() == 2 && "off"@.len() == 3 && "1"@.len() == 1 && "true"@.len() == 4);
    assert("prefix"@.len() == 6 && "default-command"@.len() == 15 && "default_command"@.len()
        == 15);
    if (value@ == seq!['C', '-', letter] || value@ == seq!['c', '-', letter]) && 'a' <= lower(
        letter,
    ) <= 'z' {
        let text = value@;
        assert(text.len() == 3 && lower(text[0]) == 'c' && text[1] == '-' && text[2] == letter);
        assert(crate::text::trimmed_start(text) == text);
        assert(text.last() == letter);
        assert(crate::text::trimmed_end(text) == text);
    }
    assert(crate::session::optional_text(None) is None);
}

/// A window or a pane that is looked for by its id, or a window by its name, is the first
/// that has it; none is found only where none has it.
pub proof fn law_looked_up_is_found(
    windows: Seq<WindowTabView>,
    panes: Seq<PaneView>,
    id: u64,
    name: Seq<char>,
    from: int,
)
    requires
        0 <= from,
        windows.len() <= usize::MAX,
        panes.len() <= usize::MAX,
    ensures
        match window_with_id(windows, id, from) {
            Some(i) => from <= i < windows.len() && windows[i as int].id == id && forall|j: int|
                from <= j < i ==> (#[trigger] windows[j]).id != id,
            None => forall|j: int| from <= j < windows.len() ==> (#[trigger] windows[j]).id != id,
        },
        match window_named(windows, name, from) {
            Some(i) => from <= i < windows.len() && windows[i as int].name@ == name && forall|
                j: int,
            |
                from <= j < i ==> (#[trigger] windows[j]).name@ != name,
            None => forall|j: int|
                from <= j < windows.len() ==> (#[trigger] windows[j]).name@ != name,
        },
        match pane_with_id(panes, id, from) {
            Some(i) => from <= i < panes.len() && panes[i as int].id == id && forall|j: int|
                from <= j < i ==> (#[trigger] panes[j]).id != id,
            None => forall|j: int| from <= j < panes.len() ==> (#[trigger] panes[j]).id != id,
        },
    decreases
            if windows.len() >= panes.len() {
                windows.len() - from
            } else {
                panes.len() - from
            },
{
    if from < windows.len() || from < panes.len() {
        law_looked_up_is_found(windows, panes, id, name, from + 1);
    }
}

/// Without a command a client runs in the session of the command line, which is made where
/// there is none. A new session has the name and the command asked for, or else those of the
/// command line; it is only started where it is to be detached, and told of where that is
/// asked for.
pub proof fn law_sessions_are_started(
    args: Args,
    result: Result<Action, Error>,
    named: Option<String>,
    command: Option<String>,
    detached: bool,
    attach: bool,
    print: bool,
    format: String,
)
    requires
        answers(args, result),
        args.command is None || args.command == Some(
            Command::NewSession { session: named, command, detached, attach, print, format },
        ),
    ensures
        args.command is None ==> (result matches Ok(Action::Run(options)) && options.session@
            == args.session@ && options.command == args.shell_command && options.create_if_missing
            && options.initial_target is None && options.tick_ms == args.tick_ms),
        args.command is Some ==> (result matches Ok(action) && {
            let options = match action {
                Action::PrintSession { options, .. } => options,
                Action::StartServer { options, .. } => options,
                Action::Run(options) => options,
                _ => arbitrary(),
            };
            &&& action is PrintSession <==> print
            &&& action is StartServer <==> detached && !print
            &&& action is Run <==> !detached && !print
            &&& action matches Action::PrintSession { attach: own, format: shown, .. } ==> own
                == attach && shown == format
            &&& action matches Action::StartServer { attach: own, .. } ==> own == attach
            &&& named matches Some(name) ==> options.session@ == name@
            &&& named is None ==> options.session@ == args.session@
            &&& command is Some ==> options.command == command
            &&& command is None ==> options.command == args.shell_command
            &&& options.create_if_missing
            &&& options.tick_ms == args.tick_ms
            &&& options.initial_target is None
        }),
{
}

/// Keys are bound, joins made and keys listed where the target says; a join takes its pane
/// from the session that it goes to.
pub proof fn law_keys_and_joins_are_asked_for(
    args: Args,
    result: Result<Action, Error>,
    target: Option<String>,
    read: TargetState,
)
    requires
        answers(args, result),
        meant(args, target) == Ok::<TargetState, TargetFault>(read),
    ensures
        match args.command {
            Some(Command::ListKeys { target: own }) if own == target => result matches Ok(
                Action::ListKeys { target: at },
            ) && at@ == read,
            Some(Command::BindKey { target: own, key, command }) if own == target => {
                match crate::options::bound_command_read(texts(command@)) {
                    Some(bound) => asks(
                        result,
                        read,
                        RmuxCommand::BindKey { key, command: bound },
                    ),
                    None => result is Err,
                }
            },
            Some(Command::JoinPane { source, target: own, print, format }) if own == target => {
                let from = target_read(source@, read.session);
                &&& from is Err ==> result is Err
                &&& from is Ok && (from->Ok_0).session != read.session ==> result is Err
                &&& from is Ok && (from->Ok_0).session == read.session ==> (result matches Ok(
                    Action::JoinPane { source: own, target: at, print: shown },
                ) && own@ == from->Ok_0 && at@ == read && (shown == if print {
                    Some(format)
                } else {
                    None
                }))
            },
            Some(Command::HasSession { target: None }) => result matches Ok(
                Action::HasSession { session },
            ) && session == args.session,
            Some(Command::HasSession { target: Some(session) }) => result matches Ok(
                Action::HasSession { session: asked },
            ) && asked == session,
            Some(Command::SourceFile { path }) => result matches Ok(
                Action::SourceFile { path: own, session },
            ) && own == path && session == args.session,
            Some(Command::ListSessions { format }) => result matches Ok(
                Action::ListSessions { format: shown },
            ) && shown == format,
            Some(Command::KillServer) => result matches Ok(Action::KillServer),
            Some(Command::Server { session, command }) => result matches Ok(
                Action::Serve { session: own, command: run },
            ) && own == session && run == command,
            _ => true,
        },
{
}

/// A target is reached from the outside in: its window is looked for and selected first,
/// then its pane; what the target does not name is left as it is. Selecting asks for the
/// window or pane of that index, and looking asks for a view.
pub proof fn law_target_is_reached_in_order(target: TargetState, index: usize)
    ensures
        target.window is Some ==> first_target_step(target) == TargetStep::LookForWindow,
        target.window is None ==> first_target_step(target) == step_to_pane(target),
        target.pane is None <==> step_to_pane(target) == TargetStep::Done,
        target.pane == Some(PaneSelector::Index(index)) <==> step_to_pane(target)
            == TargetStep::SelectPane(index),
        (target.pane matches Some(PaneSelector::Id(_))) <==> step_to_pane(target)
            == TargetStep::LookForPane,
        step_asks(TargetStep::SelectWindow(index)) == Some(
            ClientRequest::Command(RmuxCommand::SelectWindow { index }),
        ),
        step_asks(TargetStep::SelectPane(index)) == Some(
            ClientRequest::Command(RmuxCommand::SelectPane { index }),
        ),
        step_asks(TargetStep::LookForWindow) == Some(ClientRequest::Snapshot),
        step_asks(TargetStep::LookForPane) == Some(ClientRequest::Snapshot),
        step_asks(TargetStep::Done) is None,
{
}

/// What is told of a window or a pane that is not there has the number that the user gave,
/// counted from one, and tells the two apart.
pub proof fn law_told_numbers_count_from_one(index: usize, cause: String, id: u64)
    ensures
        (Error::NoSuchWindow { index }).text() == "window "@ + decimal((index + 1) as nat)
            + " does not exist"@,
        (Error::NoSuchPane { index }).text() == "pane "@ + decimal((index + 1) as nat)
            + " does not exist"@,
        (Error::TargetNotSelected { part: TargetPart::Window, index, cause }).text()
            == "select target "@ + "window"@ + " "@ + decimal((index + 1) as nat),
        (Error::TargetNotSelected { part: TargetPart::Pane, index, cause }).text()
            == "select target "@ + "pane"@ + " "@ + decimal((index + 1) as nat),
        (Error::NoWindowWithId { id }).text() == "window #"@ + decimal(id as nat)
            + " does not exist"@,
        (Error::NoPaneWithId { id }).text() == "pane %"@ + decimal(id as nat)
            + " does not exist"@,
{
}

/// Windows and panes of a target are counted from one, so that there is none with the number
/// zero. After `#` and `%` stands an id, which is a number and is not left out. What is no
/// number names a window, and is no pane.
pub proof fn law_wrong_targets_are_refused(text: Seq<char>, part: TargetPart, error: Error)
    requires
        text.len() > 0 ==> text[0] != '#' && text[0] != '%',
    ensures
        ({
            let number = number_within(text, usize::MAX as nat);
            &&& number == Some(0nat) ==> window_read(text) == Err::<
                Option<WindowChoice>,
                TargetFault,
            >(TargetFault::NotOneBased(TargetPart::Window))
            &&& number == Some(0nat) ==> pane_read(text) == Err::<
                Option<PaneSelector>,
                TargetFault,
            >(TargetFault::NotOneBased(TargetPart::Pane))
            &&& number is None && text.len() > 0 ==> window_read(text) == Ok::<
                Option<WindowChoice>,
                TargetFault,
            >(Some(WindowChoice::Name(text)))
            &&& number is None && text.len() > 0 ==> pane_read(text) == Err::<
                Option<PaneSelector>,
                TargetFault,
            >(TargetFault::NotANumber(TargetPart::Pane, text))
        }),
        ({
            let id = number_within(text, u64::MAX as nat);
            let window = window_read(seq!['#'] + text);
            let pane = pane_read(seq!['%'] + text);
            &&& window is Ok <==> id is Some
            &&& pane is Ok <==> id is Some
            &&& text.len() == 0 ==> window == Err::<Option<WindowChoice>, TargetFault>(
                TargetFault::EmptyId(TargetPart::Window),
            )
            &&& text.len() == 0 ==> pane == Err::<Option<PaneSelector>, TargetFault>(
                TargetFault::EmptyId(TargetPart::Pane),
            )
        }),
        (TargetFault::NotOneBased(part)).told_by(error) <==> error == (Error::IndexNotOneBased {
            part,
        }),
        (TargetFault::EmptyId(part)).told_by(error) <==> error == (Error::IdEmpty { part }),
        (TargetFault::NotANumber(part, text)).told_by(error) <==> (
        error matches Error::IndexNotANumber { part: own, value } && own == part && value@ == text),
        (TargetFault::IdNotANumber(part, text)).told_by(error) <==> (
        error matches Error::IdNotANumber { part: own, value } && own == part && value@ == text),
{
    let window = seq!['#'] + text;
    let pane = seq!['%'] + text;
    assert(window[0] == '#' && window.skip(1) =~= text);
    assert(pane[0] == '%' && pane.skip(1) =~= text);
    if text.len() == 0 {
        assert(crate::text::number_digits(text).len() == 0);
    }
}

} // verus!
