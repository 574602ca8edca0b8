//! Targets: which session, window and pane a command is for.

use vstd::prelude::*;
#[allow(unused_imports)]
use vstd::string::*;

use crate::error::{Error, TargetPart};
use crate::protocol::{
    ClientRequest, PaneView, RmuxCommand, ServerResponse, SessionView, WindowTabView,
};
#[allow(unused_imports)]
use crate::text::number_within;
use crate::text::{chars_of, parse_u64, parse_usize, same, split_once, string_between};

verus! {

/// A window by its zero-based index, its id or its name.
#[derive(Debug, Clone, PartialEq, Eq)]
pub enum WindowSelector {
    Index(usize),
    Id(u64),
    Name(String),
}

/// A pane by its zero-based index or its id.
#[derive(Debug, Clone, Copy, PartialEq, Eq, Structural)]
pub enum PaneSelector {
    Index(usize),
    Id(u64),
}

#[derive(Debug, Clone, PartialEq, Eq)]
pub struct CliTarget {
    pub session: String,
    pub window: Option<WindowSelector>,
    pub pane: Option<PaneSelector>,
}

/// A window selector as a mathematical value.
#[verifier::ext_equal]
pub enum WindowChoice {
    Index(usize),
    Id(u64),
    Name(Seq<char>),
}

impl View for WindowSelector {
    type V = WindowChoice;

    open spec fn view(&self) -> WindowChoice {
        match *self {
            WindowSelector::Index(index) => WindowChoice::Index(index),
            WindowSelector::Id(id) => WindowChoice::Id(id),
            WindowSelector::Name(name) => WindowChoice::Name(name@),
        }
    }
}

/// A target as a mathematical value.
#[verifier::ext_equal]
pub struct TargetState {
    pub session: Seq<char>,
    pub window: Option<WindowChoice>,
    pub pane: Option<PaneSelector>,
}

pub open spec fn window_choice(window: Option<WindowSelector>) -> Option<WindowChoice> {
    match window {
        Some(window) => Some(window@),
        None => None,
    }
}

impl View for CliTarget {
    type V = TargetState;

    open spec fn view(&self) -> TargetState {
        TargetState {
            session: self.session@,
            window: window_choice(self.window),
            pane: self.pane,
        }
    }
}

/// What can be wrong with a target.
#[verifier::ext_equal]
pub enum TargetFault {
    NotOneBased(TargetPart),
    NotANumber(TargetPart, Seq<char>),
    EmptyId(TargetPart),
    IdNotANumber(TargetPart, Seq<char>),
}

impl TargetFault {
    /// Whether an error speaks of this.
    pub open spec fn told_by(self, error: Error) -> bool {
        match self {
            TargetFault::NotOneBased(part) => error == Error::IndexNotOneBased { part },
            TargetFault::NotANumber(part, text) => error matches Error::IndexNotANumber {
                part: own,
                value,
            } && own == part && value@ == text,
            TargetFault::EmptyId(part) => error == Error::IdEmpty { part },
            TargetFault::IdNotANumber(part, text) => error matches Error::IdNotANumber {
                part: own,
                value,
            } && own == part && value@ == text,
        }
    }
}

/// The id that a text writes.
pub open spec fn id_read(text: Seq<char>, part: TargetPart) -> Result<u64, TargetFault> {
    if text.len() == 0 {
        Err(TargetFault::EmptyId(part))
    } else {
        match number_within(text, u64::MAX as nat) {
            Some(id) => Ok(id as u64),
            None => Err(TargetFault::IdNotANumber(part, text)),
        }
    }
}

/// The zero-based index that a text writes one-based.
pub open spec fn index_read(text: Seq<char>, part: TargetPart) -> Result<
    Option<usize>,
    TargetFault,
> {
    if text.len() == 0 {
        Ok(None)
    } else {
        match number_within(text, usize::MAX as nat) {
            Some(index) => if index == 0 {
                Err(TargetFault::NotOneBased(part))
            } else {
                Ok(Some((index - 1) as usize))
            },
            None => Err(TargetFault::NotANumber(part, text)),
        }
    }
}

/// The window that a text names: `#` and an id, a one-based index, or else a
/// name.
pub open spec fn window_read(text: Seq<char>) -> Result<Option<WindowChoice>, TargetFault> {
    if text.len() == 0 {
        Ok(None)
    } else if text[0] == '#' {
        match id_read(text.skip(1), TargetPart::Window) {
            Ok(id) => Ok(Some(WindowChoice::Id(id))),
            Err(fault) => Err(fault),
        }
    } else {
        match number_within(text, usize::MAX as nat) {
            Some(index) => if index == 0 {
                Err(TargetFault::NotOneBased(TargetPart::Window))
            } else {
                Ok(Some(WindowChoice::Index((index - 1) as usize)))
            },
            None => Ok(Some(WindowChoice::Name(text))),
        }
    }
}

/// The pane that a text names: `%` and an id, or a one-based index.
pub open spec fn pane_read(text: Seq<char>) -> Result<Option<PaneSelector>, TargetFault> {
    if text.len() > 0 && text[0] == '%' {
        match id_read(text.skip(1), TargetPart::Pane) {
            Ok(id) => Ok(Some(PaneSelector::Id(id))),
            Err(fault) => Err(fault),
        }
    } else {
        match index_read(text, TargetPart::Pane) {
            Ok(Some(index)) => Ok(Some(PaneSelector::Index(index))),
            Ok(None) => Ok(None),
            Err(fault) => Err(fault),
        }
    }
}

/// The target that a text of the form `session:window.pane` writes. What is left
/// out, or empty, is not chosen; an empty session is the default one.
pub open spec fn target_read(raw: Seq<char>, default_session: Seq<char>) -> Result<
    TargetState,
    TargetFault,
> {
    let (session, selector) = crate::text::split_text(raw, ':');
    let (window_part, pane_part) = crate::text::split_text(selector, '.');
    let session = if session.len() == 0 {
        default_session
    } else {
        session
    };
    match window_read(window_part) {
        Ok(window) => match pane_read(pane_part) {
            Ok(pane) => Ok(TargetState { session, window, pane }),
            Err(fault) => Err(fault),
        },
        Err(fault) => Err(fault),
    }
}

pub fn parse_target_id(value: &str, part: TargetPart) -> (result: Result<u64, Error>)
    ensures
        match result {
            Ok(id) => id_read(value@, part) == Ok::<u64, TargetFault>(id),
            Err(error) => id_read(value@, part) matches Err(fault) && fault.told_by(error),
        },
{
    if chars_of(value).len() == 0 {
        return Err(Error::IdEmpty { part });
    }
    match parse_u64(value) {
        Some(id) => Ok(id),
        None => Err(Error::IdNotANumber { part, value: value.to_string() }),
    }
}

pub fn parse_one_based_target_index(value: &str, part: TargetPart) -> (result: Result<
    Option<usize>,
    Error,
>)
    ensures
        match result {
            Ok(index) => index_read(value@, part) == Ok::<Option<usize>, TargetFault>(index),
            Err(error) => index_read(value@, part) matches Err(fault) && fault.told_by(error),
        },
{
    if chars_of(value).len() == 0 {
        return Ok(None);
    }
    match parse_usize(value) {
        Some(index) => if index == 0 {
            Err(Error::IndexNotOneBased { part })
        } else {
            Ok(Some(index - 1))
        },
        None => Err(Error::IndexNotANumber { part, value: value.to_string() }),
    }
}

/// The text after its first character.
fn rest_of(value: &str) -> (result: String)
    requires
        value@.len() > 0,
    ensures
        result@ == value@.skip(1),
{
    let chars = chars_of(value);
    let rest = string_between(&chars, 1, chars.len());
    assert(rest@ =~= value@.skip(1));
    rest
}

pub fn parse_window_selector(value: &str) -> (result: Result<Option<WindowSelector>, Error>)
    ensures
        match result {
            Ok(window) => window_read(value@) == Ok::<Option<WindowChoice>, TargetFault>(
                window_choice(window),
            ),
            Err(error) => window_read(value@) matches Err(fault) && fault.told_by(error),
        },
{
    let chars = chars_of(value);
    if chars.len() == 0 {
        return Ok(None);
    }
    if chars[0] == '#' {
        return match parse_target_id(rest_of(value).as_str(), TargetPart::Window) {
            Ok(id) => Ok(Some(WindowSelector::Id(id))),
            Err(error) => Err(error),
        };
    }
    match parse_usize(value) {
        Some(index) => if index == 0 {
            Err(Error::IndexNotOneBased { part: TargetPart::Window })
        } else {
            Ok(Some(WindowSelector::Index(index - 1)))
        },
        None => Ok(Some(WindowSelector::Name(value.to_string()))),
    }
}

pub fn parse_pane_selector(value: &str) -> (result: Result<Option<PaneSelector>, Error>)
    ensures
        match result {
            Ok(pane) => pane_read(value@) == Ok::<Option<PaneSelector>, TargetFault>(pane),
            Err(error) => pane_read(value@) matches Err(fault) && fault.told_by(error),
        },
{
    let chars = chars_of(value);
    if chars.len() > 0 && chars[0] == '%' {
        return match parse_target_id(rest_of(value).as_str(), TargetPart::Pane) {
            Ok(id) => Ok(Some(PaneSelector::Id(id))),
            Err(error) => Err(error),
        };
    }
    match parse_one_based_target_index(value, TargetPart::Pane) {
        Ok(Some(index)) => Ok(Some(PaneSelector::Index(index))),
        Ok(None) => Ok(None),
        Err(error) => Err(error),
    }
}

/// Reads a target of the form `session:window.pane`.
pub fn parse_target(raw: &str, default_session: &str) -> (result: Result<CliTarget, Error>)
    ensures
        match result {
            Ok(target) => target_read(raw@, default_session@) == Ok::<TargetState, TargetFault>(
                target@,
            ),
            Err(error) => target_read(raw@, default_session@) matches Err(fault)
                && fault.told_by(error),
        },
{
    let (session_part, selector_part) = split_once(raw, ':');
    let (window_part, pane_part) = split_once(selector_part.as_str(), '.');
    let session = if chars_of(session_part.as_str()).len() == 0 {
        default_session.to_string()
    } else {
        session_part
    };
    let window = match parse_window_selector(window_part.as_str()) {
        Ok(window) => window,
        Err(error) => {
            return Err(error);
        },
    };
    let pane = match parse_pane_selector(pane_part.as_str()) {
        Ok(pane) => pane,
        Err(error) => {
            return Err(error);
        },
    };
    Ok(CliTarget { session, window, pane })
}

/// The text of a target that may be left out: then it is the default session.
pub open spec fn asked_target(default_session: Seq<char>, target: Option<String>) -> Seq<char> {
    match target {
        Some(target) => target@,
        None => default_session,
    }
}

pub fn resolve_target(default_session: &str, target: Option<String>) -> (result: Result<
    CliTarget,
    Error,
>)
    ensures
        match result {
            Ok(read) => target_read(
                asked_target(default_session@, target),
                default_session@,
            ) == Ok::<TargetState, TargetFault>(read@),
            Err(error) => target_read(
                asked_target(default_session@, target),
                default_session@,
            ) matches Err(fault) && fault.told_by(error),
        },
{
    match target {
        Some(target) => parse_target(target.as_str(), default_session),
        None => parse_target(default_session, default_session),
    }
}

/// The first window, from `from` on, that has an id.
pub open spec fn window_with_id(windows: Seq<WindowTabView>, id: u64, from: int) -> Option<usize>
    decreases windows.len() - from,
{
    if from < 0 || from >= windows.len() {
        None
    } else if windows[from].id == id {
        Some(from as usize)
    } else {
        window_with_id(windows, id, from + 1)
    }
}

/// The first window, from `from` on, that has a name.
pub open spec fn window_named(windows: Seq<WindowTabView>, name: Seq<char>, from: int) -> Option<
    usize,
>
    decreases windows.len() - from,
{
    if from < 0 || from >= windows.len() {
        None
    } else if windows[from].name@ == name {
        Some(from as usize)
    } else {
        window_named(windows, name, from + 1)
    }
}

/// The first pane, from `from` on, that has an id.
pub open spec fn pane_with_id(panes: Seq<PaneView>, id: u64, from: int) -> Option<usize>
    decreases panes.len() - from,
{
    if from < 0 || from >= panes.len() {
        None
    } else if panes[from].id == id {
        Some(from as usize)
    } else {
        pane_with_id(panes, id, from + 1)
    }
}

fn find_window_id(windows: &Vec<WindowTabView>, id: u64) -> (result: Option<usize>)
    ensures
        result == window_with_id(windows@, id, 0),
{
    let mut i: usize = 0;
    while i < windows.len()
        invariant
            i <= windows@.len(),
            window_with_id(windows@, id, 0) == window_with_id(windows@, id, i as int),
        decreases windows@.len() - i,
    {
        if windows[i].id == id {
            return Some(i);
        }
        i = i + 1;
    }
    None
}

fn find_window_name(windows: &Vec<WindowTabView>, name: &str) -> (result: Option<usize>)
    ensures
        result == window_named(windows@, name@, 0),
{
    let mut i: usize = 0;
    while i < windows.len()
        invariant
            i <= windows@.len(),
            window_named(windows@, name@, 0) == window_named(windows@, name@, i as int),
        decreases windows@.len() - i,
    {
        if same(windows[i].name.as_str(), name) {
            return Some(i);
        }
        i = i + 1;
    }
    None
}

fn find_pane_id(panes: &Vec<PaneView>, id: u64) -> (result: Option<usize>)
    ensures
        result == pane_with_id(panes@, id, 0),
{
    let mut i: usize = 0;
    while i < panes.len()
        invariant
            i <= panes@.len(),
            pane_with_id(panes@, id, 0) == pane_with_id(panes@, id, i as int),
        decreases panes@.len() - i,
    {
        if panes[i].id == id {
            return Some(i);
        }
        i = i + 1;
    }
    None
}

/// The index of the window that a target chooses. An id or a name is looked up
/// in a view of the session.
pub fn resolve_window_selector(target: &CliTarget, view: Option<&SessionView>) -> (result: Result<
    Option<usize>,
    Error,
>)
    ensures
        match target@.window {
            None => result == Ok::<Option<usize>, Error>(None),
            Some(WindowChoice::Index(index)) => result == Ok::<Option<usize>, Error>(Some(index)),
            Some(WindowChoice::Id(id)) => match view {
                None => result == Err::<Option<usize>, Error>(Error::SnapshotMissing),
                Some(view) => match window_with_id(view.windows@, id, 0) {
                    Some(index) => result == Ok::<Option<usize>, Error>(Some(index)),
                    None => result == Err::<Option<usize>, Error>(Error::NoWindowWithId { id }),
                },
            },
            Some(WindowChoice::Name(name)) => match view {
                None => result == Err::<Option<usize>, Error>(Error::SnapshotMissing),
                Some(view) => match window_named(view.windows@, name, 0) {
                    Some(index) => result == Ok::<Option<usize>, Error>(Some(index)),
                    None => result matches Err(Error::NoWindowNamed { name: asked })
                        && asked@ == name,
                },
            },
        },
{
    let selector = match &target.window {
        Some(selector) => selector,
        None => {
            return Ok(None);
        },
    };
    match selector {
        WindowSelector::Index(index) => Ok(Some(*index)),
        WindowSelector::Id(id) => {
            let view = match view {
                Some(view) => view,
                None => {
                    return Err(Error::SnapshotMissing);
                },
            };
            match find_window_id(&view.windows, *id) {
                Some(index) => Ok(Some(index)),
                None => Err(Error::NoWindowWithId { id: *id }),
            }
        },
        WindowSelector::Name(name) => {
            let view = match view {
                Some(view) => view,
                None => {
                    return Err(Error::SnapshotMissing);
                },
            };
            match find_window_name(&view.windows, name.as_str()) {
                Some(index) => Ok(Some(index)),
                None => Err(Error::NoWindowNamed { name: name.as_str().to_string() }),
            }
        },
    }
}

/// The index of the pane that a target chooses. An id is looked up in a view of
/// the session.
pub fn resolve_pane_selector(target: &CliTarget, view: Option<&SessionView>) -> (result: Result<
    Option<usize>,
    Error,
>)
    ensures
        match target@.pane {
            None => result == Ok::<Option<usize>, Error>(None),
            Some(PaneSelector::Index(index)) => result == Ok::<Option<usize>, Error>(Some(index)),
            Some(PaneSelector::Id(id)) => match view {
                None => result == Err::<Option<usize>, Error>(Error::SnapshotMissing),
                Some(view) => match pane_with_id(view.panes@, id, 0) {
                    Some(index) => result == Ok::<Option<usize>, Error>(Some(index)),
                    None => result == Err::<Option<usize>, Error>(Error::NoPaneWithId { id }),
                },
            },
        },
{
    match target.pane {
        None => Ok(None),
        Some(PaneSelector::Index(index)) => Ok(Some(index)),
        Some(PaneSelector::Id(id)) => {
            let view = match view {
                Some(view) => view,
                None => {
                    return Err(Error::SnapshotMissing);
                },
            };
            match find_pane_id(&view.panes, id) {
                Some(index) => Ok(Some(index)),
                None => Err(Error::NoPaneWithId { id }),
            }
        },
    }
}

/// Where the choosing of a target stands. Each step is a request to the session
/// on a connection of its own, and its answer leads to the next.
#[derive(Debug, Clone, Copy, PartialEq, Eq, Structural)]
pub enum TargetStep {
    /// A view is asked for, to find the window in.
    LookForWindow,
    /// The window of this index is to be selected.
    SelectWindow(usize),
    /// A view is asked for, to find the pane in.
    LookForPane,
    /// The pane of this index is to be selected.
    SelectPane(usize),
    Done,
}

/// The step after the window was seen to.
pub open spec fn step_to_pane(target: TargetState) -> TargetStep {
    match target.pane {
        Some(PaneSelector::Id(_)) => TargetStep::LookForPane,
        Some(PaneSelector::Index(index)) => TargetStep::SelectPane(index),
        None => TargetStep::Done,
    }
}

/// The first step of choosing a target.
pub open spec fn first_target_step(target: TargetState) -> TargetStep {
    if target.window is Some {
        TargetStep::LookForWindow
    } else {
        step_to_pane(target)
    }
}

fn after_window(target: &CliTarget) -> (result: TargetStep)
    ensures
        result == step_to_pane(target@),
{
    match target.pane {
        Some(PaneSelector::Id(_)) => TargetStep::LookForPane,
        Some(PaneSelector::Index(index)) => TargetStep::SelectPane(index),
        None => TargetStep::Done,
    }
}

pub fn begin_target(target: &CliTarget) -> (result: TargetStep)
    ensures
        result == first_target_step(target@),
{
    if target.window.is_some() {
        TargetStep::LookForWindow
    } else {
        after_window(target)
    }
}

/// What is asked of the session in a step.
pub open spec fn step_asks(step: TargetStep) -> Option<ClientRequest> {
    match step {
        TargetStep::LookForWindow | TargetStep::LookForPane => Some(ClientRequest::Snapshot),
        TargetStep::SelectWindow(index) => Some(
            ClientRequest::Command(RmuxCommand::SelectWindow { index }),
        ),
        TargetStep::SelectPane(index) => Some(
            ClientRequest::Command(RmuxCommand::SelectPane { index }),
        ),
        TargetStep::Done => None,
    }
}

pub fn target_request(step: TargetStep) -> (result: Option<ClientRequest>)
    ensures
        result == step_asks(step),
{
    match step {
        TargetStep::LookForWindow => Some(ClientRequest::Snapshot),
        TargetStep::LookForPane => Some(ClientRequest::Snapshot),
        TargetStep::SelectWindow(index) => Some(
            ClientRequest::Command(RmuxCommand::SelectWindow { index }),
        ),
        TargetStep::SelectPane(index) => Some(
            ClientRequest::Command(RmuxCommand::SelectPane { index }),
        ),
        TargetStep::Done => None,
    }
}

/// What a response without a view tells the user.
pub open spec fn told_without_view(response: ServerResponse) -> Seq<char> {
    match response {
        ServerResponse::View(_) => seq![],
        ServerResponse::Noop => Error::NoView.text(),
        ServerResponse::Detached => Error::SessionDetached.text(),
        ServerResponse::Shutdown => Error::SessionShutDown.text(),
        ServerResponse::Error(message) => message@,
    }
}

/// Whether a result says that a part of a target could not be selected, and what
/// the session answered.
pub open spec fn not_selected(
    result: Result<TargetStep, Error>,
    part: TargetPart,
    index: usize,
    response: ServerResponse,
) -> bool {
    result matches Err(Error::TargetNotSelected { part: own, index: at, cause }) && own == part && at
        == index && cause@ == told_without_view(response)
}

/// The step after the answer to another, or why there is none.
pub fn continue_target(target: &CliTarget, step: TargetStep, response: ServerResponse) -> (result:
    Result<TargetStep, Error>)
    requires
        step == TargetStep::LookForWindow ==> target@.window is Some,
        step == TargetStep::LookForPane ==> target@.pane is Some,
    ensures
        response is View ==> match step {
            TargetStep::LookForWindow => match target@.window->0 {
                WindowChoice::Index(index) => result == Ok::<TargetStep, Error>(
                    TargetStep::SelectWindow(index),
                ),
                WindowChoice::Id(id) => match window_with_id(
                    response->View_0.windows@,
                    id,
                    0,
                ) {
                    Some(index) => result == Ok::<TargetStep, Error>(
                        TargetStep::SelectWindow(index),
                    ),
                    None => result == Err::<TargetStep, Error>(Error::NoWindowWithId { id }),
                },
                WindowChoice::Name(name) => match window_named(
                    response->View_0.windows@,
                    name,
                    0,
                ) {
                    Some(index) => result == Ok::<TargetStep, Error>(
                        TargetStep::SelectWindow(index),
                    ),
                    None => result matches Err(Error::NoWindowNamed { name: asked })
                        && asked@ == name,
                },
            },
            TargetStep::SelectWindow(_) => result == Ok::<TargetStep, Error>(
                step_to_pane(target@),
            ),
            TargetStep::LookForPane => match target@.pane->0 {
                PaneSelector::Index(index) => result == Ok::<TargetStep, Error>(
                    TargetStep::SelectPane(index),
                ),
                PaneSelector::Id(id) => match pane_with_id(response->View_0.panes@, id, 0) {
                    Some(index) => result == Ok::<TargetStep, Error>(
                        TargetStep::SelectPane(index),
                    ),
                    None => result == Err::<TargetStep, Error>(Error::NoPaneWithId { id }),
                },
            },
            TargetStep::SelectPane(_) | TargetStep::Done => result == Ok::<TargetStep, Error>(
                TargetStep::Done,
            ),
        },
        match step {
            TargetStep::SelectWindow(index) => response !is View ==> not_selected(
                result,
                TargetPart::Window,
                index,
                response,
            ),
            TargetStep::SelectPane(index) => response !is View ==> not_selected(
                result,
                TargetPart::Pane,
                index,
                response,
            ),
            _ => match response {
                ServerResponse::View(_) => true,
                ServerResponse::Noop => result == Err::<TargetStep, Error>(Error::NoView),
                ServerResponse::Detached => result == Err::<TargetStep, Error>(
                    Error::SessionDetached,
                ),
                ServerResponse::Shutdown => result == Err::<TargetStep, Error>(
                    Error::SessionShutDown,
                ),
                ServerResponse::Error(message) => result == Err::<TargetStep, Error>(
                    Error::Server { message },
                ),
            },
        },
{
    let view = match response.into_view() {
        Ok(view) => view,
        Err(error) => {
            let cause = error.message();
            return Err(
                match step {
                    TargetStep::SelectWindow(index) => Error::TargetNotSelected {
                        part: TargetPart::Window,
                        index,
                        cause,
                    },
                    TargetStep::SelectPane(index) => Error::TargetNotSelected {
                        part: TargetPart::Pane,
                        index,
                        cause,
                    },
                    _ => error,
                },
            );
        },
    };
    match step {
        TargetStep::LookForWindow => match resolve_window_selector(target, Some(&view)) {
            Ok(Some(index)) => Ok(TargetStep::SelectWindow(index)),
            Ok(None) => Ok(after_window(target)),
            Err(error) => Err(error),
        },
        TargetStep::SelectWindow(_) => Ok(after_window(target)),
        TargetStep::LookForPane => match resolve_pane_selector(target, Some(&view)) {
            Ok(Some(index)) => Ok(TargetStep::SelectPane(index)),
            Ok(None) => Ok(TargetStep::Done),
            Err(error) => Err(error),
        },
        TargetStep::SelectPane(_) => Ok(TargetStep::Done),
        TargetStep::Done => Ok(TargetStep::Done),
    }
}

/// The command that joins the pane that is active in a view, once the source of
/// a join was chosen.
pub fn join_command(found: &SessionView) -> (result: RmuxCommand)
    ensures
        result == (RmuxCommand::JoinPane {
            source_window: found.active_window,
            source_pane: found.active_pane,
        }),
{
    RmuxCommand::JoinPane { source_window: found.active_window, source_pane: found.active_pane }
}

/// The pane to be joined into another window, which has to be in the same
/// session.
pub fn parse_join_source(source: &str, destination: &CliTarget) -> (result: Result<
    CliTarget,
    Error,
>)
    ensures
        match target_read(source@, destination@.session) {
            Ok(read) => if read.session == destination@.session {
                result matches Ok(target) && target@ == read
            } else {
                result == Err::<CliTarget, Error>(Error::JoinAcrossSessions)
            },
            Err(fault) => result matches Err(error) && fault.told_by(error),
        },
{
    let target = match parse_target(source, destination.session.as_str()) {
        Ok(target) => target,
        Err(error) => {
            return Err(error);
        },
    };
    if !same(target.session.as_str(), destination.session.as_str()) {
        return Err(Error::JoinAcrossSessions);
    }
    Ok(target)
}

/// How the window of a target is written: by its one-based index, by `#` and its
/// id, or by its name.
pub open spec fn window_written(window: Option<WindowChoice>) -> Seq<char> {
    match window {
        Some(WindowChoice::Index(index)) => crate::text::decimal((index + 1) as nat),
        Some(WindowChoice::Id(id)) => seq!['#'] + crate::text::decimal(id as nat),
        Some(WindowChoice::Name(name)) => name,
        None => seq![],
    }
}

/// How the pane of a target is written: by its one-based index, or by `%` and its
/// id.
pub open spec fn pane_written(pane: PaneSelector) -> Seq<char> {
    match pane {
        PaneSelector::Index(index) => crate::text::decimal((index + 1) as nat),
        PaneSelector::Id(id) => seq!['%'] + crate::text::decimal(id as nat),
    }
}

/// How a target is written: the session, which may be left out, `:`, the window,
/// which may be left out, and then `.` and the pane, or neither.
pub open spec fn target_written(
    session: Seq<char>,
    window: Option<WindowChoice>,
    pane: Option<PaneSelector>,
) -> Seq<char> {
    session + seq![':'] + window_written(window) + match pane {
        Some(pane) => seq!['.'] + pane_written(pane),
        None => seq![],
    }
}

/// Whether a window can be written: its one-based index is a machine number, or
/// its name is not taken for an id, for an index or for a window with a pane.
pub open spec fn window_writable(window: Option<WindowChoice>) -> bool {
    match window {
        Some(WindowChoice::Index(index)) => index < usize::MAX,
        Some(WindowChoice::Id(_)) => true,
        Some(WindowChoice::Name(name)) => {
            &&& name.len() > 0
            &&& name[0] != '#'
            &&& !name.contains('.')
            &&& number_within(name, usize::MAX as nat) is None
        },
        None => true,
    }
}

proof fn lemma_written_window(window: Option<WindowChoice>)
    requires
        window_writable(window),
    ensures
        !window_written(window).contains('.'),
        window_read(window_written(window)) == Ok::<Option<WindowChoice>, TargetFault>(window),
{
    let text = window_written(window);
    match window {
        Some(WindowChoice::Index(index)) => {
            let n = (index + 1) as nat;
            crate::text::law_decimal_reads_back(n, usize::MAX as nat);
            crate::text::lemma_decimal_is_digits(n);
        },
        Some(WindowChoice::Id(id)) => {
            let digits = crate::text::decimal(id as nat);
            crate::text::law_decimal_reads_back(id as nat, u64::MAX as nat);
            crate::text::lemma_decimal_is_digits(id as nat);
            assert(text.skip(1) =~= digits);
            if text.contains('.') {
                let i = choose|i: int| 0 <= i < text.len() && text[i] == '.';
                assert(i > 0 && digits[i - 1] == '.');
            }
        },
        _ => {},
    }
}

proof fn lemma_written_pane(pane: PaneSelector)
    requires
        pane matches PaneSelector::Index(index) ==> index < usize::MAX,
    ensures
        pane_read(pane_written(pane)) == Ok::<Option<PaneSelector>, TargetFault>(Some(pane)),
{
    let text = pane_written(pane);
    match pane {
        PaneSelector::Index(index) => {
            let n = (index + 1) as nat;
            crate::text::law_decimal_reads_back(n, usize::MAX as nat);
            crate::text::lemma_decimal_is_digits(n);
        },
        PaneSelector::Id(id) => {
            crate::text::law_decimal_reads_back(id as nat, u64::MAX as nat);
            crate::text::lemma_decimal_is_digits(id as nat);
            assert(text.skip(1) =~= crate::text::decimal(id as nat));
        },
    }
}

/// A target reads back as it was written, for every session whose name holds no
/// colon: with its window by index, by id or by name and its pane by index or by
/// id, and where the window, the pane or both are left out. Where the session is
/// left out it is the default one. A session alone may be written without the
/// colon.
pub proof fn law_written_target_reads_back(
    session: Seq<char>,
    window: Option<WindowChoice>,
    pane: Option<PaneSelector>,
    default_session: Seq<char>,
)
    requires
        !session.contains(':'),
        window_writable(window),
        pane matches Some(PaneSelector::Index(index)) ==> index < usize::MAX,
    ensures
        ({
            let target = TargetState {
                session: if session.len() == 0 {
                    default_session
                } else {
                    session
                },
                window,
                pane,
            };
            let read = Ok::<TargetState, TargetFault>(target);
            &&& target_read(target_written(session, window, pane), default_session) == read
            &&& window is None && pane is None ==> target_read(session, default_session) == read
        }),
{
    let w = window_written(window);
    let raw = target_written(session, window, pane);
    lemma_written_window(window);
    if let Some(pane) = pane {
        let p = pane_written(pane);
        let selector = w + seq!['.'] + p;
        lemma_written_pane(pane);
        assert(raw =~= session + seq![':'] + selector);
        crate::text::lemma_split_text(session, ':', selector);
        crate::text::lemma_split_text(w, '.', p);
    } else {
        assert(raw =~= session + seq![':'] + w);
        crate::text::lemma_split_text(session, ':', w);
        crate::text::lemma_unsplit_text(w, '.');
        crate::text::lemma_unsplit_text(session, ':');
        crate::text::lemma_unsplit_text(seq![], '.');
    }
}

} // verus!
