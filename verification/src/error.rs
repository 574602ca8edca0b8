//! Every way in which a request of the user or of a client can fail.

use vstd::prelude::*;
#[allow(unused_imports)]
use vstd::string::*;

use crate::text::{decimal_string, quote};

verus! {

/// The part of a target that an error speaks of.
#[derive(Debug, Clone, Copy, PartialEq, Eq, Structural)]
pub enum TargetPart {
    Window,
    Pane,
}

impl TargetPart {
    pub open spec fn text(self) -> Seq<char> {
        match self {
            TargetPart::Window => "window"@,
            TargetPart::Pane => "pane"@,
        }
    }

    pub fn name(self) -> (result: &'static str)
        ensures
            result@ == self.text(),
    {
        match self {
            TargetPart::Window => "window",
            TargetPart::Pane => "pane",
        }
    }
}

#[derive(Debug, Clone, PartialEq, Eq)]
pub enum Error {
    /// The server answered without a view.
    NoView,
    SessionDetached,
    SessionShutDown,
    /// What the server said went wrong.
    Server { message: String },
    IndexNotOneBased { part: TargetPart },
    IndexNotANumber { part: TargetPart, value: String },
    IdEmpty { part: TargetPart },
    IdNotANumber { part: TargetPart, value: String },
    SnapshotMissing,
    NoWindowWithId { id: u64 },
    NoWindowNamed { name: String },
    NoPaneWithId { id: u64 },
    /// The zero-based window or pane of a target that could not be selected, and
    /// what the user would have been told without the target.
    TargetNotSelected { part: TargetPart, index: usize, cause: String },
    JoinAcrossSessions,
    UnsupportedLayout { value: String },
    ResizeDirectionMissing,
    ResizeDirectionRepeated,
    SwapDirectionMissing,
    SwapDirectionRepeated,
    UnsupportedWindowOption { option: String },
    UnsupportedSessionOption { option: String },
    BindKeyNeedsCommand,
    UnsupportedBindKeyCommand { command: String },
    /// `C-` and a key that has no control byte.
    UnsupportedPrefixControl { value: String },
    /// Anything that does not read `C-` and one key.
    UnsupportedPrefixKey { value: String },
    ExpectedOnOff,
    UnsupportedControlToken { key: String },
    LineEndsWithEscape,
    UnterminatedQuote { double: bool },
    /// A pane that could not be split off, by the id it would have had.
    SplitPane { pane_id: u64 },
    WindowLimit,
    SpawnTerminal,
    RespawnTerminal,
    NoPaneToRespawn,
    /// A zero-based window index past the last window.
    NoSuchWindow { index: usize },
    NoLastWindow,
    /// A zero-based pane index past the last pane.
    NoSuchPane { index: usize },
    PaneCannotResize,
    PaneCannotSwap,
    WindowCannotSwap,
    LastPaneCannotBreak,
    PaneCannotJoin,
    NoOtherPanes,
    LastPaneCannotBeKilled,
    LastWindowCannotBeKilled,
    ActiveWindowMissing,
    ActivePaneMissing,
    MessageTooLarge,
    MessageTooLong { bytes: usize },
    InsecureSocketDir { path: String },
    SessionRunning { session: String },
    ServerDidNotStart { session: String },
    TimedOutOnText { session: String, pattern: String },
    TimedOutOnSession { session: String },
    SessionsNotKilled { failures: String },
}

impl Error {
    /// What the user is told.
    pub open spec fn text(self) -> Seq<char> {
        match self {
            Error::NoView => "request did not produce a view"@,
            Error::SessionDetached => "session detached"@,
            Error::SessionShutDown => "session shut down"@,
            Error::Server { message } => message@,
            Error::IndexNotOneBased { part } => "target "@ + part.text()
                + " index must be one-based"@,
            Error::IndexNotANumber { part, value } => "parse target "@ + part.text() + " index "@
                + crate::text::quoted(value@),
            Error::IdEmpty { part } => "target "@ + part.text() + " id is empty"@,
            Error::IdNotANumber { part, value } => "parse target "@ + part.text() + " id "@
                + crate::text::quoted(value@),
            Error::SnapshotMissing => "target snapshot missing"@,
            Error::NoWindowWithId { id } => "window #"@ + crate::text::decimal(id as nat)
                + " does not exist"@,
            Error::NoWindowNamed { name } => "window "@ + crate::text::quoted(name@)
                + " does not exist"@,
            Error::NoPaneWithId { id } => "pane %"@ + crate::text::decimal(id as nat)
                + " does not exist"@,
            Error::TargetNotSelected { part, index, .. } => "select target "@ + part.text() + " "@
                + crate::text::decimal((index + 1) as nat),
            Error::JoinAcrossSessions => "join-pane source and target must be in the same session"@,
            Error::UnsupportedLayout { value } => "unsupported layout "@ + crate::text::quoted(
                value@,
            ) + "; expected even-horizontal or even-vertical"@,
            Error::ResizeDirectionMissing => "resize-pane needs one direction: -L, -R, -U, or -D"@,
            Error::ResizeDirectionRepeated => "resize-pane accepts only one direction flag"@,
            Error::SwapDirectionMissing => "swap-pane needs one direction: -U or -D"@,
            Error::SwapDirectionRepeated => "swap-pane accepts only one direction flag"@,
            Error::UnsupportedWindowOption { option } => "unsupported window option "@
                + crate::text::quoted(option@) + "; expected synchronize-panes"@,
            Error::UnsupportedSessionOption { option } => "unsupported session option "@
                + crate::text::quoted(option@) + "; expected default-command or prefix"@,
            Error::BindKeyNeedsCommand => "bind-key needs a command"@,
            Error::UnsupportedBindKeyCommand { command } => "unsupported bind-key command "@
                + crate::text::quoted(command@)
                + "; supported: split-window, new-window, next-pane, previous-pane, kill-pane, detach-client, last-window, select-layout next"@,
            Error::UnsupportedPrefixControl { value } => "unsupported prefix key "@
                + crate::text::quoted(value@),
            Error::UnsupportedPrefixKey { value } => "unsupported prefix key "@
                + crate::text::quoted(value@) + "; expected C-a through C-z or C-["@,
            Error::ExpectedOnOff => "expected on/off, true/false, or 1/0"@,
            Error::UnsupportedControlToken { key } => "unsupported control token "@ + key@,
            Error::LineEndsWithEscape => "line ends with escape"@,
            Error::UnterminatedQuote { double } => if double {
                "unterminated '\"' quote"@
            } else {
                "unterminated '\\'' quote"@
            },
            Error::SplitPane { pane_id } => "split pane PaneId("@ + crate::text::decimal(
                pane_id as nat,
            ) + ")"@,
            Error::WindowLimit => "window limit reached (max 64)"@,
            Error::SpawnTerminal => "spawn libtermy terminal"@,
            Error::RespawnTerminal => "respawn libtermy terminal"@,
            Error::NoPaneToRespawn => "no active pane to respawn"@,
            Error::NoSuchWindow { index } => "window "@ + crate::text::decimal((index + 1) as nat)
                + " does not exist"@,
            Error::NoLastWindow => "no last window"@,
            Error::NoSuchPane { index } => "pane "@ + crate::text::decimal((index + 1) as nat)
                + " does not exist"@,
            Error::PaneCannotResize => "pane cannot be resized in that direction"@,
            Error::PaneCannotSwap => "pane cannot be swapped in that direction"@,
            Error::WindowCannotSwap => "window cannot be swapped in that direction"@,
            Error::LastPaneCannotBreak => "last pane cannot be broken into a new window"@,
            Error::PaneCannotJoin => "pane cannot be joined into target window"@,
            Error::NoOtherPanes => "no other panes to kill"@,
            Error::LastPaneCannotBeKilled => "last pane cannot be killed"@,
            Error::LastWindowCannotBeKilled => "last window cannot be killed"@,
            Error::ActiveWindowMissing => "active window is missing"@,
            Error::ActivePaneMissing => "active pane is missing"@,
            Error::MessageTooLarge => "rmux message too large"@,
            Error::MessageTooLong { bytes } => "rmux message too large: "@ + crate::text::decimal(
                bytes as nat,
            ) + " bytes"@,
            Error::InsecureSocketDir { path } => "rmux socket path is not a secure directory: "@
                + path@,
            Error::SessionRunning { session } => "rmux session "@ + session@
                + " is already running"@,
            Error::ServerDidNotStart { session } => "rmux server did not start for "@ + session@,
            Error::TimedOutOnText { session, pattern } => "timed out waiting for target "@
                + session@ + " to contain "@ + crate::text::quoted(pattern@),
            Error::TimedOutOnSession { session } => "timed out waiting for session "@ + session@,
            Error::SessionsNotKilled { failures } => "failed to kill rmux sessions: "@ + failures@,
        }
    }

    pub fn message(&self) -> (result: String)
        ensures
            result@ == self.text(),
    {
        match self {
            Error::NoView => "request did not produce a view".to_string(),
            Error::SessionDetached => "session detached".to_string(),
            Error::SessionShutDown => "session shut down".to_string(),
            Error::Server { message } => message.clone(),
            Error::IndexNotOneBased { part } => "target ".to_string().concat(part.name()).concat(
                " index must be one-based",
            ),
            Error::IndexNotANumber { part, value } => "parse target ".to_string().concat(
                part.name(),
            ).concat(" index ").concat(quote(value.as_str()).as_str()),
            Error::IdEmpty { part } => "target ".to_string().concat(part.name()).concat(
                " id is empty",
            ),
            Error::IdNotANumber { part, value } => "parse target ".to_string().concat(
                part.name(),
            ).concat(" id ").concat(quote(value.as_str()).as_str()),
            Error::SnapshotMissing => "target snapshot missing".to_string(),
            Error::NoWindowWithId { id } => "window #".to_string().concat(
                decimal_string(*id as u128).as_str(),
            ).concat(" does not exist"),
            Error::NoWindowNamed { name } => "window ".to_string().concat(
                quote(name.as_str()).as_str(),
            ).concat(" does not exist"),
            Error::NoPaneWithId { id } => "pane %".to_string().concat(
                decimal_string(*id as u128).as_str(),
            ).concat(" does not exist"),
            Error::TargetNotSelected { part, index, .. } => "select target ".to_string().concat(
                part.name(),
            ).concat(" ").concat(decimal_string(*index as u128 + 1).as_str()),
            Error::JoinAcrossSessions =>
                "join-pane source and target must be in the same session".to_string(),
            Error::UnsupportedLayout { value } => "unsupported layout ".to_string().concat(
                quote(value.as_str()).as_str(),
            ).concat("; expected even-horizontal or even-vertical"),
            Error::ResizeDirectionMissing =>
                "resize-pane needs one direction: -L, -R, -U, or -D".to_string(),
            Error::ResizeDirectionRepeated =>
                "resize-pane accepts only one direction flag".to_string(),
            Error::SwapDirectionMissing => "swap-pane needs one direction: -U or -D".to_string(),
            Error::SwapDirectionRepeated =>
                "swap-pane accepts only one direction flag".to_string(),
            Error::UnsupportedWindowOption { option } =>
                "unsupported window option ".to_string().concat(
                quote(option.as_str()).as_str(),
            ).concat("; expected synchronize-panes"),
            Error::UnsupportedSessionOption { option } =>
                "unsupported session option ".to_string().concat(
                quote(option.as_str()).as_str(),
            ).concat("; expected default-command or prefix"),
            Error::BindKeyNeedsCommand => "bind-key needs a command".to_string(),
            Error::UnsupportedBindKeyCommand { command } =>
                "unsupported bind-key command ".to_string().concat(
                quote(command.as_str()).as_str(),
            ).concat(
                "; supported: split-window, new-window, next-pane, previous-pane, kill-pane, detach-client, last-window, select-layout next",
            ),
            Error::UnsupportedPrefixControl { value } =>
                "unsupported prefix key ".to_string().concat(quote(value.as_str()).as_str()),
            Error::UnsupportedPrefixKey { value } => "unsupported prefix key ".to_string().concat(
                quote(value.as_str()).as_str(),
            ).concat("; expected C-a through C-z or C-["),
            Error::ExpectedOnOff => "expected on/off, true/false, or 1/0".to_string(),
            Error::UnsupportedControlToken { key } =>
                "unsupported control token ".to_string().concat(key.as_str()),
            Error::LineEndsWithEscape => "line ends with escape".to_string(),
            Error::UnterminatedQuote { double } => if *double {
                "unterminated '\"' quote".to_string()
            } else {
                "unterminated '\\'' quote".to_string()
            },
            Error::SplitPane { pane_id } => "split pane PaneId(".to_string().concat(
                decimal_string(*pane_id as u128).as_str(),
            ).concat(")"),
            Error::WindowLimit => "window limit reached (max 64)".to_string(),
            Error::SpawnTerminal => "spawn libtermy terminal".to_string(),
            Error::RespawnTerminal => "respawn libtermy terminal".to_string(),
            Error::NoPaneToRespawn => "no active pane to respawn".to_string(),
            Error::NoSuchWindow { index } => "window ".to_string().concat(
                decimal_string(*index as u128 + 1).as_str(),
            ).concat(" does not exist"),
            Error::NoLastWindow => "no last window".to_string(),
            Error::NoSuchPane { index } => "pane ".to_string().concat(
                decimal_string(*index as u128 + 1).as_str(),
            ).concat(" does not exist"),
            Error::PaneCannotResize => "pane cannot be resized in that direction".to_string(),
            Error::PaneCannotSwap => "pane cannot be swapped in that direction".to_string(),
            Error::WindowCannotSwap => "window cannot be swapped in that direction".to_string(),
            Error::LastPaneCannotBreak =>
                "last pane cannot be broken into a new window".to_string(),
            Error::PaneCannotJoin => "pane cannot be joined into target window".to_string(),
            Error::NoOtherPanes => "no other panes to kill".to_string(),
            Error::LastPaneCannotBeKilled => "last pane cannot be killed".to_string(),
            Error::LastWindowCannotBeKilled => "last window cannot be killed".to_string(),
            Error::ActiveWindowMissing => "active window is missing".to_string(),
            Error::ActivePaneMissing => "active pane is missing".to_string(),
            Error::MessageTooLarge => "rmux message too large".to_string(),
            Error::MessageTooLong { bytes } => "rmux message too large: ".to_string().concat(
                decimal_string(*bytes as u128).as_str(),
            ).concat(" bytes"),
            Error::InsecureSocketDir { path } =>
                "rmux socket path is not a secure directory: ".to_string().concat(path.as_str()),
            Error::SessionRunning { session } => "rmux session ".to_string().concat(
                session.as_str(),
            ).concat(" is already running"),
            Error::ServerDidNotStart { session } =>
                "rmux server did not start for ".to_string().concat(session.as_str()),
            Error::TimedOutOnText { session, pattern } =>
                "timed out waiting for target ".to_string().concat(session.as_str()).concat(
                " to contain ",
            ).concat(quote(pattern.as_str()).as_str()),
            Error::TimedOutOnSession { session } =>
                "timed out waiting for session ".to_string().concat(session.as_str()),
            Error::SessionsNotKilled { failures } =>
                "failed to kill rmux sessions: ".to_string().concat(failures.as_str()),
        }
    }
}

} // verus!
