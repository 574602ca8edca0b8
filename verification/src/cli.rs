//! The command line: what can be asked for, and what is to be done about it.

use vstd::prelude::*;
#[allow(unused_imports)]
use vstd::string::*;

use crate::error::Error;
use crate::format::CaptureMode;
use crate::options::{
    parse_bound_command, parse_layout, parse_resize_direction, parse_session_option,
    parse_swap_direction, parse_window_option,
};
#[allow(unused_imports)]
use crate::protocol::{BoundCommand, ResizeDirection, SwapDirection};
use crate::protocol::{RmuxCommand, SplitAxis};
#[allow(unused_imports)]
use crate::render::texts;
use crate::send_keys::encode_send_keys;
use crate::target::{parse_join_source, parse_target, resolve_target, CliTarget};
#[allow(unused_imports)]
use crate::target::{asked_target, target_read, TargetFault, TargetState};

verus! {

/// What is printed of something new where no format is given.
pub const DEFAULT_CREATION_FORMAT: &'static str = "#{session_name}:#{window_index}.#{pane_index}";

#[derive(Debug)]
pub struct Args {
    pub command: Option<Command>,
    /// Command to start in the first pane.
    pub shell_command: Option<String>,
    /// Session name for the implicit local session.
    pub session: String,
    /// Poll interval for terminal frames.
    pub tick_ms: u64,
}

/// What can be asked for. A target reads `session:window.pane`; where it is left
/// out it is the session of the arguments. Indices are one-based.
#[derive(Debug)]
pub enum Command {
    NewSession {
        session: Option<String>,
        command: Option<String>,
        detached: bool,
        attach: bool,
        print: bool,
        format: String,
    },
    Attach { target: Option<String> },
    ListSessions { format: Option<String> },
    SourceFile { path: String },
    HasSession { target: Option<String> },
    WaitFor { target: Option<String>, pattern: Option<String>, timeout_ms: u64 },
    SendKeys { target: Option<String>, literal: bool, keys: Vec<String> },
    SendPrefix { target: Option<String> },
    BindKey { target: Option<String>, key: char, command: Vec<String> },
    ListKeys { target: Option<String> },
    CapturePane { target: Option<String>, all_panes: bool },
    DisplayMessage { target: Option<String>, format: String },
    NewWindow {
        target: Option<String>,
        name: Option<String>,
        command: Option<String>,
        print: bool,
        format: String,
    },
    SplitWindow {
        target: Option<String>,
        horizontal: bool,
        command: Option<String>,
        print: bool,
        format: String,
    },
    SelectWindow { target: Option<String>, index: usize },
    NextWindow { target: Option<String> },
    PreviousWindow { target: Option<String> },
    LastWindow { target: Option<String> },
    SwapWindow { target: Option<String>, previous: bool, next: bool },
    MoveWindow { target: Option<String>, index: usize },
    BreakPane { target: Option<String>, name: Option<String>, print: bool, format: String },
    JoinPane { source: String, target: Option<String>, print: bool, format: String },
    SelectPane { target: Option<String>, index: usize },
    NextPane { target: Option<String> },
    PreviousPane { target: Option<String> },
    SelectLayout { target: Option<String>, layout: String },
    ResizePane {
        target: Option<String>,
        left: bool,
        right: bool,
        up: bool,
        down: bool,
        amount: u16,
    },
    SwapPane { target: Option<String>, previous: bool, next: bool },
    KillPane { target: Option<String>, all_other: bool },
    RespawnPane { target: Option<String>, command: Option<String> },
    ListPanes { target: Option<String>, format: Option<String> },
    ListWindows { target: Option<String>, format: Option<String> },
    SetWindowOption { target: Option<String>, option: String, value: String },
    SetOption { target: Option<String>, option: String, value: String },
    RespawnWindow { target: Option<String>, command: Option<String> },
    KillWindow { target: Option<String> },
    RenameWindow { target: Option<String>, name: String },
    RenameSession { target: Option<String>, name: String },
    KillSession { target: Option<String> },
    DetachClient { target: Option<String> },
    KillServer,
    Server { session: String, command: Option<String> },
    SendText { target: String, text: String },
    Snapshot { target: String },
    ShutdownServer { target: String },
    HoldClient { target: String, millis: u64, ready_file: Option<String> },
}

/// How a client is started.
#[derive(Debug)]
pub struct LaunchOptions {
    pub session: String,
    pub command: Option<String>,
    pub tick_ms: u64,
    pub create_if_missing: bool,
    pub initial_target: Option<CliTarget>,
}

/// What is to be done about what was asked for.
#[derive(Debug)]
pub enum Action {
    ListSessions { format: Option<String> },
    SourceFile { path: String, session: String },
    HasSession { session: String },
    WaitFor { target: CliTarget, pattern: Option<String>, timeout_ms: u64 },
    /// See to it that there is a server, then print what a format shows.
    PrintSession { options: LaunchOptions, attach: bool, format: String },
    /// See to it that there is a server.
    StartServer { options: LaunchOptions, attach: bool },
    Run(LaunchOptions),
    SendKeys { target: CliTarget, bytes: Vec<u8> },
    /// Have a session do something, then print what a format, if any, shows.
    Command { target: CliTarget, command: RmuxCommand, print: Option<String> },
    /// Find the source, and have it joined into the target.
    JoinPane { source: CliTarget, target: CliTarget, print: Option<String> },
    ListKeys { target: CliTarget },
    Capture { target: CliTarget, mode: CaptureMode },
    Display { target: CliTarget, format: String },
    ListPanes { target: CliTarget, format: Option<String> },
    ListWindows { target: CliTarget, format: Option<String> },
    KillSession { session: String },
    DetachClient { target: CliTarget },
    KillServer,
    Serve { session: String, command: Option<String> },
    SendText { session: String, text: String },
    HoldClient { session: String, millis: u64, ready_file: Option<String> },
}

pub open spec fn printed(print: bool, format: String) -> Option<String> {
    if print {
        Some(format)
    } else {
        None
    }
}

fn format_if(print: bool, format: String) -> (result: Option<String>)
    ensures
        result == printed(print, format),
{
    if print {
        Some(format)
    } else {
        None
    }
}

/// What is to be done where a target can be read, and the error where not.
pub open spec fn with_target(
    session: String,
    target: Option<String>,
    result: Result<Action, Error>,
    wanted: spec_fn(TargetState) -> bool,
) -> bool {
    match target_read(asked_target(session@, target), session@) {
        Ok(read) => wanted(read),
        Err(fault) => result matches Err(error) && fault.told_by(error),
    }
}

/// Whether a session is had do something.
pub open spec fn commands(
    result: Result<Action, Error>,
    read: TargetState,
    command: RmuxCommand,
    print: Option<String>,
) -> bool {
    result matches Ok(Action::Command { target, command: own, print: shown }) && target@ == read
        && own == command && shown == print
}

/// The index counted from zero of one counted from one; the first stays first.
pub open spec fn from_one(index: usize) -> usize {
    if index > 0 {
        (index - 1) as usize
    } else {
        0
    }
}

/// Whether a client is started.
pub open spec fn launches(
    options: LaunchOptions,
    session: Seq<char>,
    command: Option<String>,
    tick_ms: u64,
    create_if_missing: bool,
) -> bool {
    &&& options.session@ == session
    &&& options.command == command
    &&& options.tick_ms == tick_ms
    &&& options.create_if_missing == create_if_missing
}

/// Whether a result is what is to be done about the arguments.
pub open spec fn answers(args: Args, result: Result<Action, Error>) -> bool {
    let session = args.session;
    match args.command {
        None => result matches Ok(Action::Run(options)) && launches(
            options,
            session@,
            args.shell_command,
            args.tick_ms,
            true,
        ) && options.initial_target is None,
        Some(Command::NewSession { session: named, command, detached, attach, print, format }) => {
            let name = match named {
                Some(named) => named@,
                None => session@,
            };
            let start = match command {
                Some(command) => Some(command),
                None => args.shell_command,
            };
            if print {
                result matches Ok(Action::PrintSession { options, attach: own, format: shown })
                    && launches(options, name, start, args.tick_ms, true)
                    && options.initial_target is None && own == attach && shown == format
            } else if detached {
                result matches Ok(Action::StartServer { options, attach: own }) && launches(
                    options,
                    name,
                    start,
                    args.tick_ms,
                    true,
                ) && options.initial_target is None && own == attach
            } else {
                result matches Ok(Action::Run(options)) && launches(
                    options,
                    name,
                    start,
                    args.tick_ms,
                    true,
                ) && options.initial_target is None
            }
        },
        Some(Command::Attach { target }) => with_target(
            session,
            target,
            result,
            |read: TargetState|
                result matches Ok(Action::Run(options)) && launches(
                    options,
                    read.session,
                    args.shell_command,
                    args.tick_ms,
                    false,
                ) && (options.initial_target matches Some(own) && own@ == read),
        ),
        Some(Command::ListSessions { format }) => result == Ok::<Action, Error>(
            Action::ListSessions { format },
        ),
        Some(Command::SourceFile { path }) => result == Ok::<Action, Error>(
            Action::SourceFile { path, session },
        ),
        Some(Command::HasSession { target }) => result == Ok::<Action, Error>(
            Action::HasSession {
                session: match target {
                    Some(target) => target,
                    None => session,
                },
            },
        ),
        Some(Command::WaitFor { target, pattern, timeout_ms }) => with_target(
            session,
            target,
            result,
            |read: TargetState|
                result matches Ok(
                    Action::WaitFor { target: own, pattern: text, timeout_ms: limit },
                ) && own@ == read && text == pattern && limit == timeout_ms,
        ),
        Some(Command::SendKeys { target, literal, keys }) => with_target(
            session,
            target,
            result,
            |read: TargetState|
                if literal {
                    result matches Ok(Action::SendKeys { target: own, bytes }) && own@ == read
                        && bytes@ == vstd::utf8::encode_utf8(
                        crate::send_keys::joined(texts(keys@)),
                    )
                } else {
                    match crate::send_keys::tokens_bytes(texts(keys@)) {
                        Ok(sent) => result matches Ok(Action::SendKeys { target: own, bytes })
                            && own@ == read && bytes@ == sent,
                        Err(key) => result matches Err(
                            Error::UnsupportedControlToken { key: asked },
                        ) && asked@ == key,
                    }
                },
        ),
        Some(Command::SendPrefix { target }) => with_target(
            session,
            target,
            result,
            |read: TargetState| commands(result, read, RmuxCommand::SendPrefix, None),
        ),
        Some(Command::BindKey { target, key, command }) => with_target(
            session,
            target,
            result,
            |read: TargetState|
                match crate::options::bound_command_read(texts(command@)) {
                    Some(bound) => commands(
                        result,
                        read,
                        RmuxCommand::BindKey { key, command: bound },
                        None,
                    ),
                    None => if command@.len() == 0 {
                        result == Err::<Action, Error>(Error::BindKeyNeedsCommand)
                    } else {
                        result matches Err(Error::UnsupportedBindKeyCommand { command: asked })
                            && asked@ == command@[0]@
                    },
                },
        ),
        Some(Command::ListKeys { target }) => with_target(
            session,
            target,
            result,
            |read: TargetState|
                result matches Ok(Action::ListKeys { target: own }) && own@ == read,
        ),
        Some(Command::CapturePane { target, all_panes }) => with_target(
            session,
            target,
            result,
            |read: TargetState|
                result matches Ok(Action::Capture { target: own, mode }) && own@ == read && mode
                    == if all_panes {
                    CaptureMode::AllPanes
                } else {
                    CaptureMode::ActivePane
                },
        ),
        Some(Command::DisplayMessage { target, format }) => with_target(
            session,
            target,
            result,
            |read: TargetState|
                result matches Ok(Action::Display { target: own, format: shown }) && own@ == read
                    && shown == format,
        ),
        Some(Command::NewWindow { target, name, command, print, format }) => with_target(
            session,
            target,
            result,
            |read: TargetState|
                commands(
                    result,
                    read,
                    RmuxCommand::NewWindow { name, command },
                    printed(print, format),
                ),
        ),
        Some(Command::SplitWindow { target, horizontal, command, print, format }) => with_target(
            session,
            target,
            result,
            |read: TargetState|
                commands(
                    result,
                    read,
                    RmuxCommand::SplitWindow {
                        axis: if horizontal {
                            SplitAxis::Horizontal
                        } else {
                            SplitAxis::Vertical
                        },
                        command,
                    },
                    printed(print, format),
                ),
        ),
        Some(Command::SelectWindow { target, index }) => with_target(
            session,
            target,
            result,
            |read: TargetState|
                commands(
                    result,
                    read,
                    RmuxCommand::SelectWindow { index: from_one(index) },
                    None,
                ),
        ),
        Some(Command::NextWindow { target }) => with_target(
            session,
            target,
            result,
            |read: TargetState| commands(result, read, RmuxCommand::NextWindow, None),
        ),
        Some(Command::PreviousWindow { target }) => with_target(
            session,
            target,
            result,
            |read: TargetState| commands(result, read, RmuxCommand::PreviousWindow, None),
        ),
        Some(Command::LastWindow { target }) => with_target(
            session,
            target,
            result,
            |read: TargetState| commands(result, read, RmuxCommand::LastWindow, None),
        ),
        Some(Command::SwapWindow { target, previous, next }) => with_target(
            session,
            target,
            result,
            |read: TargetState|
                match swap_asked(previous, next) {
                    Ok(direction) => commands(
                        result,
                        read,
                        RmuxCommand::SwapWindow { direction },
                        None,
                    ),
                    Err(error) => result == Err::<Action, Error>(error),
                },
        ),
        Some(Command::MoveWindow { target, index }) => with_target(
            session,
            target,
            result,
            |read: TargetState|
                commands(result, read, RmuxCommand::MoveWindow { index: from_one(index) }, None),
        ),
        Some(Command::BreakPane { target, name, print, format }) => with_target(
            session,
            target,
            result,
            |read: TargetState|
                commands(
                    result,
                    read,
                    RmuxCommand::BreakPane { name },
                    printed(print, format),
                ),
        ),
        Some(Command::JoinPane { source, target, print, format }) => with_target(
            session,
            target,
            result,
            |read: TargetState|
                match target_read(source@, read.session) {
                    Ok(from) => if from.session == read.session {
                        result matches Ok(
                            Action::JoinPane { source: own, target: into, print: shown },
                        ) && own@ == from && into@ == read && shown == printed(print, format)
                    } else {
                        result == Err::<Action, Error>(Error::JoinAcrossSessions)
                    },
                    Err(fault) => result matches Err(error) && fault.told_by(error),
                },
        ),
        Some(Command::SelectPane { target, index }) => with_target(
            session,
            target,
            result,
            |read: TargetState|
                commands(result, read, RmuxCommand::SelectPane { index: from_one(index) }, None),
        ),
        Some(Command::NextPane { target }) => with_target(
            session,
            target,
            result,
            |read: TargetState| commands(result, read, RmuxCommand::NextPane, None),
        ),
        Some(Command::PreviousPane { target }) => with_target(
            session,
            target,
            result,
            |read: TargetState| commands(result, read, RmuxCommand::PreviousPane, None),
        ),
        Some(Command::SelectLayout { target, layout }) => with_target(
            session,
            target,
            result,
            |read: TargetState|
                match crate::options::layout_named(layout@) {
                    Some(axis) => commands(
                        result,
                        read,
                        RmuxCommand::SelectLayout { axis },
                        None,
                    ),
                    None => result matches Err(Error::UnsupportedLayout { value }) && value@
                        == layout@,
                },
        ),
        Some(Command::ResizePane { target, left, right, up, down, amount }) => with_target(
            session,
            target,
            result,
            |read: TargetState|
                match resize_asked(left, right, up, down) {
                    Ok(direction) => commands(
                        result,
                        read,
                        RmuxCommand::ResizePane { direction, amount },
                        None,
                    ),
                    Err(error) => result == Err::<Action, Error>(error),
                },
        ),
        Some(Command::SwapPane { target, previous, next }) => with_target(
            session,
            target,
            result,
            |read: TargetState|
                match swap_asked(previous, next) {
                    Ok(direction) => commands(
                        result,
                        read,
                        RmuxCommand::SwapPane { direction },
                        None,
                    ),
                    Err(error) => result == Err::<Action, Error>(error),
                },
        ),
        Some(Command::KillPane { target, all_other }) => with_target(
            session,
            target,
            result,
            |read: TargetState|
                commands(result, read, RmuxCommand::KillPane { all_other }, None),
        ),
        Some(Command::RespawnPane { target, command }) => with_target(
            session,
            target,
            result,
            |read: TargetState|
                commands(result, read, RmuxCommand::RespawnPane { command }, None),
        ),
        Some(Command::ListPanes { target, format }) => with_target(
            session,
            target,
            result,
            |read: TargetState|
                result matches Ok(Action::ListPanes { target: own, format: shown }) && own@ == read
                    && shown == format,
        ),
        Some(Command::ListWindows { target, format }) => with_target(
            session,
            target,
            result,
            |read: TargetState|
                result matches Ok(Action::ListWindows { target: own, format: shown }) && own@
                    == read && shown == format,
        ),
        Some(Command::SetWindowOption { target, option, value }) => with_target(
            session,
            target,
            result,
            |read: TargetState| window_option_answered(result, read, option@, value@),
        ),
        Some(Command::SetOption { target, option, value }) => with_target(
            session,
            target,
            result,
            |read: TargetState| session_option_answered(result, read, option@, value@),
        ),
        Some(Command::RespawnWindow { target, command }) => with_target(
            session,
            target,
            result,
            |read: TargetState|
                commands(result, read, RmuxCommand::RespawnWindow { command }, None),
        ),
        Some(Command::KillWindow { target }) => with_target(
            session,
            target,
            result,
            |read: TargetState| commands(result, read, RmuxCommand::KillWindow, None),
        ),
        Some(Command::RenameWindow { target, name }) => with_target(
            session,
            target,
            result,
            |read: TargetState| commands(result, read, RmuxCommand::RenameWindow { name }, None),
        ),
        Some(Command::RenameSession { target, name }) => with_target(
            session,
            target,
            result,
            |read: TargetState| commands(result, read, RmuxCommand::RenameSession { name }, None),
        ),
        Some(Command::KillSession { target }) => with_target(
            session,
            target,
            result,
            |read: TargetState|
                result matches Ok(Action::KillSession { session: own }) && own@ == read.session,
        ),
        Some(Command::DetachClient { target }) => with_target(
            session,
            target,
            result,
            |read: TargetState|
                result matches Ok(Action::DetachClient { target: own }) && own@ == read,
        ),
        Some(Command::KillServer) => result == Ok::<Action, Error>(Action::KillServer),
        Some(Command::Server { session: named, command }) => result == Ok::<Action, Error>(
            Action::Serve { session: named, command },
        ),
        Some(Command::SendText { target, text }) => result == Ok::<Action, Error>(
            Action::SendText { session: target, text },
        ),
        Some(Command::Snapshot { target }) => match target_read(target@, target@) {
            Ok(read) => result matches Ok(Action::Capture { target: own, mode }) && own@ == read
                && mode == CaptureMode::AllPanes,
            Err(fault) => result matches Err(error) && fault.told_by(error),
        },
        Some(Command::ShutdownServer { target }) => result == Ok::<Action, Error>(
            Action::KillSession { session: target },
        ),
        Some(Command::HoldClient { target, millis, ready_file }) => result == Ok::<Action, Error>(
            Action::HoldClient { session: target, millis, ready_file },
        ),
    }
}

/// The one direction that a swap asks for.
pub open spec fn swap_asked(previous: bool, next: bool) -> Result<SwapDirection, Error> {
    match (previous, next) {
        (true, false) => Ok(SwapDirection::Previous),
        (false, true) => Ok(SwapDirection::Next),
        (false, false) => Err(Error::SwapDirectionMissing),
        (true, true) => Err(Error::SwapDirectionRepeated),
    }
}

/// The one direction that a resize asks for.
pub open spec fn resize_asked(left: bool, right: bool, up: bool, down: bool) -> Result<
    ResizeDirection,
    Error,
> {
    match (left, right, up, down) {
        (true, false, false, false) => Ok(ResizeDirection::Left),
        (false, true, false, false) => Ok(ResizeDirection::Right),
        (false, false, true, false) => Ok(ResizeDirection::Up),
        (false, false, false, true) => Ok(ResizeDirection::Down),
        (false, false, false, false) => Err(Error::ResizeDirectionMissing),
        _ => Err(Error::ResizeDirectionRepeated),
    }
}

/// Whether a result is what is to be done about a window option.
pub open spec fn window_option_answered(
    result: Result<Action, Error>,
    read: TargetState,
    option: Seq<char>,
    value: Seq<char>,
) -> bool {
    if crate::options::synchronizes(option) {
        match crate::options::switch_read(value) {
            Some(enabled) => commands(
                result,
                read,
                RmuxCommand::SetSynchronizePanes { enabled },
                None,
            ),
            None => result == Err::<Action, Error>(Error::ExpectedOnOff),
        }
    } else {
        result matches Err(Error::UnsupportedWindowOption { option: asked }) && asked@ == option
    }
}

/// Whether a result is what is to be done about a session option.
pub open spec fn session_option_answered(
    result: Result<Action, Error>,
    read: TargetState,
    option: Seq<char>,
    value: Seq<char>,
) -> bool {
    if crate::options::sets_default_command(option) {
        result matches Ok(
            Action::Command { target, command: RmuxCommand::SetDefaultCommand { command }, print },
        ) && target@ == read && print is None && crate::session::optional_text(command)
            == crate::options::default_command_read(value)
    } else if crate::options::sets_prefix(option) {
        let text = crate::text::trimmed(value);
        if crate::options::is_control_text(text) {
            match crate::send_keys::control_key(crate::text::lower(text[2])) {
                Some(key) => commands(result, read, RmuxCommand::SetPrefixKey { key }, None),
                None => result matches Err(Error::UnsupportedPrefixControl { value: asked })
                    && asked@ == text,
            }
        } else {
            result matches Err(Error::UnsupportedPrefixKey { value: asked }) && asked@ == text
        }
    } else {
        result matches Err(Error::UnsupportedSessionOption { option: asked }) && asked@ == option
    }
}

fn command_action(session: &String, target: Option<String>, command: RmuxCommand, print: Option<
    String,
>) -> (result: Result<Action, Error>)
    ensures
        match target_read(asked_target(session@, target), session@) {
            Ok(read) => commands(result, read, command, print),
            Err(fault) => result matches Err(error) && fault.told_by(error),
        },
{
    match resolve_target(session.as_str(), target) {
        Ok(target) => Ok(Action::Command { target, command, print }),
        Err(error) => Err(error),
    }
}

/// Decides what is to be done about the arguments.
pub fn dispatch(args: Args) -> (result: Result<Action, Error>)
    ensures
        answers(args, result),
{
    let session = args.session;
    let command = match args.command {
        Some(command) => command,
        None => {
            return Ok(
                Action::Run(
                    LaunchOptions {
                        session,
                        command: args.shell_command,
                        tick_ms: args.tick_ms,
                        create_if_missing: true,
                        initial_target: None,
                    },
                ),
            );
        },
    };
    match command {
        Command::NewSession { session: named, command, detached, attach, print, format } => {
            let options = LaunchOptions {
                session: match named {
                    Some(named) => named,
                    None => session,
                },
                command: match command {
                    Some(command) => Some(command),
                    None => args.shell_command,
                },
                tick_ms: args.tick_ms,
                create_if_missing: true,
                initial_target: None,
            };
            if print {
                Ok(Action::PrintSession { options, attach, format })
            } else if detached {
                Ok(Action::StartServer { options, attach })
            } else {
                Ok(Action::Run(options))
            }
        },
        Command::Attach { target } => match resolve_target(session.as_str(), target) {
            Ok(target) => Ok(
                Action::Run(
                    LaunchOptions {
                        session: target.session.as_str().to_string(),
                        command: args.shell_command,
                        tick_ms: args.tick_ms,
                        create_if_missing: false,
                        initial_target: Some(target),
                    },
                ),
            ),
            Err(error) => Err(error),
        },
        Command::ListSessions { format } => Ok(Action::ListSessions { format }),
        Command::SourceFile { path } => Ok(Action::SourceFile { path, session }),
        Command::HasSession { target } => Ok(
            Action::HasSession {
                session: match target {
                    Some(target) => target,
                    None => session,
                },
            },
        ),
        Command::WaitFor { target, pattern, timeout_ms } => match resolve_target(
            session.as_str(),
            target,
        ) {
            Ok(target) => Ok(Action::WaitFor { target, pattern, timeout_ms }),
            Err(error) => Err(error),
        },
        Command::SendKeys { target, literal, keys } => match resolve_target(
            session.as_str(),
            target,
        ) {
            Ok(target) => match encode_send_keys(keys.as_slice(), literal) {
                Ok(bytes) => Ok(Action::SendKeys { target, bytes }),
                Err(error) => Err(error),
            },
            Err(error) => Err(error),
        },
        Command::SendPrefix { target } => command_action(
            &session,
            target,
            RmuxCommand::SendPrefix,
            None,
        ),
        Command::BindKey { target, key, command } => match resolve_target(
            session.as_str(),
            target,
        ) {
            Ok(target) => match parse_bound_command(command.as_slice()) {
                Ok(command) => Ok(
                    Action::Command {
                        target,
                        command: RmuxCommand::BindKey { key, command },
                        print: None,
                    },
                ),
                Err(error) => Err(error),
            },
            Err(error) => Err(error),
        },
        Command::ListKeys { target } => match resolve_target(session.as_str(), target) {
            Ok(target) => Ok(Action::ListKeys { target }),
            Err(error) => Err(error),
        },
        Command::CapturePane { target, all_panes } => match resolve_target(
            session.as_str(),
            target,
        ) {
            Ok(target) => Ok(
                Action::Capture {
                    target,
                    mode: if all_panes {
                        CaptureMode::AllPanes
                    } else {
                        CaptureMode::ActivePane
                    },
                },
            ),
            Err(error) => Err(error),
        },
        Command::DisplayMessage { target, format } => match resolve_target(
            session.as_str(),
            target,
        ) {
            Ok(target) => Ok(Action::Display { target, format }),
            Err(error) => Err(error),
        },
        Command::NewWindow { target, name, command, print, format } => command_action(
            &session,
            target,
            RmuxCommand::NewWindow { name, command },
            format_if(print, format),
        ),
        Command::SplitWindow { target, horizontal, command, print, format } => command_action(
            &session,
            target,
            RmuxCommand::SplitWindow {
                axis: if horizontal {
                    SplitAxis::Horizontal
                } else {
                    SplitAxis::Vertical
                },
                command,
            },
            format_if(print, format),
        ),
        Command::SelectWindow { target, index } => command_action(
            &session,
            target,
            RmuxCommand::SelectWindow { index: index.saturating_sub(1) },
            None,
        ),
        Command::NextWindow { target } => command_action(
            &session,
            target,
            RmuxCommand::NextWindow,
            None,
        ),
        Command::PreviousWindow { target } => command_action(
            &session,
            target,
            RmuxCommand::PreviousWindow,
            None,
        ),
        Command::LastWindow { target } => command_action(
            &session,
            target,
            RmuxCommand::LastWindow,
            None,
        ),
        Command::SwapWindow { target, previous, next } => match resolve_target(
            session.as_str(),
            target,
        ) {
            Ok(target) => match parse_swap_direction(previous, next) {
                Ok(direction) => Ok(
                    Action::Command {
                        target,
                        command: RmuxCommand::SwapWindow { direction },
                        print: None,
                    },
                ),
                Err(error) => Err(error),
            },
            Err(error) => Err(error),
        },
        Command::MoveWindow { target, index } => command_action(
            &session,
            target,
            RmuxCommand::MoveWindow { index: index.saturating_sub(1) },
            None,
        ),
        Command::BreakPane { target, name, print, format } => command_action(
            &session,
            target,
            RmuxCommand::BreakPane { name },
            format_if(print, format),
        ),
        Command::JoinPane { source, target, print, format } => match resolve_target(
            session.as_str(),
            target,
        ) {
            Ok(target) => match parse_join_source(source.as_str(), &target) {
                Ok(source) => Ok(
                    Action::JoinPane { source, target, print: format_if(print, format) },
                ),
                Err(error) => Err(error),
            },
            Err(error) => Err(error),
        },
        Command::SelectPane { target, index } => command_action(
            &session,
            target,
            RmuxCommand::SelectPane { index: index.saturating_sub(1) },
            None,
        ),
        Command::NextPane { target } => command_action(
            &session,
            target,
            RmuxCommand::NextPane,
            None,
        ),
        Command::PreviousPane { target } => command_action(
            &session,
            target,
            RmuxCommand::PreviousPane,
            None,
        ),
        Command::SelectLayout { target, layout } => match resolve_target(
            session.as_str(),
            target,
        ) {
            Ok(target) => match parse_layout(layout.as_str()) {
                Ok(axis) => Ok(
                    Action::Command {
                        target,
                        command: RmuxCommand::SelectLayout { axis },
                        print: None,
                    },
                ),
                Err(error) => Err(error),
            },
            Err(error) => Err(error),
        },
        Command::ResizePane { target, left, right, up, down, amount } => match resolve_target(
            session.as_str(),
            target,
        ) {
            Ok(target) => match parse_resize_direction(left, right, up, down) {
                Ok(direction) => Ok(
                    Action::Command {
                        target,
                        command: RmuxCommand::ResizePane { direction, amount },
                        print: None,
                    },
                ),
                Err(error) => Err(error),
            },
            Err(error) => Err(error),
        },
        Command::SwapPane { target, previous, next } => match resolve_target(
            session.as_str(),
            target,
        ) {
            Ok(target) => match parse_swap_direction(previous, next) {
                Ok(direction) => Ok(
                    Action::Command {
                        target,
                        command: RmuxCommand::SwapPane { direction },
                        print: None,
                    },
                ),
                Err(error) => Err(error),
            },
            Err(error) => Err(error),
        },
        Command::KillPane { target, all_other } => command_action(
            &session,
            target,
            RmuxCommand::KillPane { all_other },
            None,
        ),
        Command::RespawnPane { target, command } => command_action(
            &session,
            target,
            RmuxCommand::RespawnPane { command },
            None,
        ),
        Command::ListPanes { target, format } => match resolve_target(session.as_str(), target) {
            Ok(target) => Ok(Action::ListPanes { target, format }),
            Err(error) => Err(error),
        },
        Command::ListWindows { target, format } => match resolve_target(
            session.as_str(),
            target,
        ) {
            Ok(target) => Ok(Action::ListWindows { target, format }),
            Err(error) => Err(error),
        },
        Command::SetWindowOption { target, option, value } => match resolve_target(
            session.as_str(),
            target,
        ) {
            Ok(target) => match parse_window_option(option.as_str(), value.as_str()) {
                Ok(command) => Ok(Action::Command { target, command, print: None }),
                Err(error) => Err(error),
            },
            Err(error) => Err(error),
        },
        Command::SetOption { target, option, value } => match resolve_target(
            session.as_str(),
            target,
        ) {
            Ok(target) => match parse_session_option(option.as_str(), value.as_str()) {
                Ok(command) => Ok(Action::Command { target, command, print: None }),
                Err(error) => Err(error),
            },
            Err(error) => Err(error),
        },
        Command::RespawnWindow { target, command } => command_action(
            &session,
            target,
            RmuxCommand::RespawnWindow { command },
            None,
        ),
        Command::KillWindow { target } => command_action(
            &session,
            target,
            RmuxCommand::KillWindow,
            None,
        ),
        Command::RenameWindow { target, name } => command_action(
            &session,
            target,
            RmuxCommand::RenameWindow { name },
            None,
        ),
        Command::RenameSession { target, name } => command_action(
            &session,
            target,
            RmuxCommand::RenameSession { name },
            None,
        ),
        Command::KillSession { target } => match resolve_target(session.as_str(), target) {
            Ok(target) => Ok(Action::KillSession { session: target.session }),
            Err(error) => Err(error),
        },
        Command::DetachClient { target } => match resolve_target(session.as_str(), target) {
            Ok(target) => Ok(Action::DetachClient { target }),
            Err(error) => Err(error),
        },
        Command::KillServer => Ok(Action::KillServer),
        Command::Server { session: named, command } => Ok(
            Action::Serve { session: named, command },
        ),
        Command::SendText { target, text } => Ok(Action::SendText { session: target, text }),
        Command::Snapshot { target } => match parse_target(target.as_str(), target.as_str()) {
            Ok(target) => Ok(Action::Capture { target, mode: CaptureMode::AllPanes }),
            Err(error) => Err(error),
        },
        Command::ShutdownServer { target } => Ok(Action::KillSession { session: target }),
        Command::HoldClient { target, millis, ready_file } => Ok(
            Action::HoldClient { session: target, millis, ready_file },
        ),
    }
}

/// Whether a server is started: unless one that is there already is made do.
pub fn starts_server(attach: bool, exists: bool) -> (result: bool)
    ensures
        result == !(attach && exists),
{
    !(attach && exists)
}

/// The arguments that a server is started with.
pub fn server_args(session: &str, command: Option<&str>) -> (result: Vec<String>)
    ensures
        texts(result@) == seq!["server"@, "--session"@, session@] + match command {
            Some(command) => seq!["--command"@, command@],
            None => seq![],
        },
{
    let mut args: Vec<String> = Vec::new();
    args.push("server".to_string());
    args.push("--session".to_string());
    args.push(session.to_string());
    let ghost fixed = texts(args@);
    assert(fixed =~= seq!["server"@, "--session"@, session@]);
    match command {
        Some(command) => {
            args.push("--command".to_string());
            args.push(command.to_string());
            assert(texts(args@) =~= fixed + seq!["--command"@, command@]);
        },
        None => {
            assert(texts(args@) =~= fixed + seq![]);
        },
    }
    args
}

} // verus!
