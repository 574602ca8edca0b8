//! A session server: what it does with each request of a client, and what it
//! answers.

use vstd::prelude::*;
#[allow(unused_imports)]
use vstd::string::*;

use crate::error::Error;
use crate::keys::KeyEvent;
use crate::mux::Rmux;
use crate::protocol::{ClientRequest, RmuxCommand, ServerResponse};
use crate::state::{Effect, ExitReason};
#[allow(unused_imports)]
use crate::state::{in_order, outcome, shown_writes, EffectState, RmuxState};

verus! {

/// The most clients that a server serves at once.
pub const MAX_CLIENT_CONNECTIONS: usize = 32;

fn as_text(text: &Option<String>) -> (result: Option<&str>)
    ensures
        crate::mux::optional_str(result) == crate::session::optional_text(*text),
{
    match text {
        Some(text) => Some(text.as_str()),
        None => None,
    }
}

fn done_or(succeeded: bool, error: Error) -> (result: Result<Effect, Error>)
    ensures
        outcome(result) == if succeeded {
            Ok(EffectState::Nothing)
        } else {
            Err(error)
        },
        result matches Ok(effect) ==> effect is Nothing,
{
    if succeeded {
        Ok(Effect::Nothing)
    } else {
        Err(error)
    }
}

/// Does what a command says.
pub fn apply_rmux_command(app: &mut Rmux, command: RmuxCommand) -> (result: Result<Effect, Error>)
    requires
        old(app)@.sound(),
        old(app)@.can_apply(command),
    ensures
        (final(app)@, outcome(result)) == old(app)@.command_applied(command),
        final(app)@.sound(),
        result matches Ok(Effect::Spawn(request)) ==> final(app)@.awaits(request@),
{
    match command {
        RmuxCommand::NewWindow { name, command } => app.new_window(name, as_text(&command)),
        RmuxCommand::SplitWindow { axis, command } => app.split_window(axis, as_text(&command)),
        RmuxCommand::SelectWindow { index } => done_or(
            app.select_window(index),
            Error::NoSuchWindow { index },
        ),
        RmuxCommand::NextWindow => {
            app.next_window();
            Ok(Effect::Nothing)
        },
        RmuxCommand::PreviousWindow => {
            app.previous_window();
            Ok(Effect::Nothing)
        },
        RmuxCommand::LastWindow => done_or(app.last_window(), Error::NoLastWindow),
        RmuxCommand::SelectPane { index } => done_or(
            app.select_pane(index),
            Error::NoSuchPane { index },
        ),
        RmuxCommand::NextPane => {
            app.next_pane();
            Ok(Effect::Nothing)
        },
        RmuxCommand::PreviousPane => {
            app.previous_pane();
            Ok(Effect::Nothing)
        },
        RmuxCommand::SelectLayout { axis } => {
            app.select_layout(axis);
            Ok(Effect::Nothing)
        },
        RmuxCommand::ResizePane { direction, amount } => done_or(
            app.resize_active_pane(direction, amount),
            Error::PaneCannotResize,
        ),
        RmuxCommand::SwapPane { direction } => done_or(
            app.swap_active_pane(direction),
            Error::PaneCannotSwap,
        ),
        RmuxCommand::SwapWindow { direction } => done_or(
            app.swap_active_window(direction),
            Error::WindowCannotSwap,
        ),
        RmuxCommand::MoveWindow { index } => done_or(
            app.move_active_window(index),
            Error::NoSuchWindow { index },
        ),
        RmuxCommand::SendPrefix => Ok(app.send_prefix()),
        RmuxCommand::BreakPane { name } => done_or(
            app.break_active_pane(name),
            Error::LastPaneCannotBreak,
        ),
        RmuxCommand::JoinPane { source_window, source_pane } => done_or(
            app.join_pane(source_window, source_pane),
            Error::PaneCannotJoin,
        ),
        RmuxCommand::DetachClient => {
            app.detach_clients();
            Ok(Effect::Nothing)
        },
        RmuxCommand::KillPane { all_other } => if all_other {
            done_or(app.kill_other_panes(), Error::NoOtherPanes)
        } else {
            done_or(app.kill_active_pane(), Error::LastPaneCannotBeKilled)
        },
        RmuxCommand::RespawnPane { command } => app.respawn_active_pane(as_text(&command)),
        RmuxCommand::RespawnWindow { command } => app.respawn_active_window(as_text(&command)),
        RmuxCommand::SetSynchronizePanes { enabled } => {
            app.set_synchronize_panes(enabled);
            Ok(Effect::Nothing)
        },
        RmuxCommand::SetDefaultCommand { command } => {
            app.set_default_command(command);
            Ok(Effect::Nothing)
        },
        RmuxCommand::SetPrefixKey { key } => {
            app.set_prefix_key(key);
            Ok(Effect::Nothing)
        },
        RmuxCommand::BindKey { key, command } => {
            app.bind_key(key, command);
            Ok(Effect::Nothing)
        },
        RmuxCommand::KillWindow => done_or(
            app.kill_active_window(),
            Error::LastWindowCannotBeKilled,
        ),
        RmuxCommand::RenameWindow { name } => {
            app.rename_active_window(name);
            Ok(Effect::Nothing)
        },
        RmuxCommand::RenameSession { name } => {
            app.rename_session(name);
            Ok(Effect::Nothing)
        },
    }
}

/// What a request leaves to be done before it is answered.
#[derive(Debug)]
pub enum Begun {
    /// Nothing: this is the answer.
    Answered(ServerResponse),
    /// An effect; then ended terminals are looked for, and a view is the answer.
    ShowAfter(Effect),
    /// What panes write of a paste, and whether those that are scrolled back show
    /// their last lines again; then ended terminals are looked for.
    PasteThenLook { writes: Vec<(u64, Vec<u8>)>, to_bottom: bool },
}

/// What a request comes to, as a mathematical value.
#[verifier::ext_equal]
pub enum BegunState {
    Failed(Error),
    ShutDown,
    Ignored,
    ShowAfter(EffectState),
    PasteThenLook { writes: Seq<(u64, Seq<u8>)>, to_bottom: bool },
}

impl Begun {
    /// Whether this is what a request comes to.
    pub open spec fn is(self, state: BegunState) -> bool {
        match state {
            BegunState::Failed(error) => self matches Begun::Answered(ServerResponse::Error(
                message,
            )) && message@ == error.text(),
            BegunState::ShutDown => self == Begun::Answered(ServerResponse::Shutdown),
            BegunState::Ignored => self == Begun::Answered(ServerResponse::Noop),
            BegunState::ShowAfter(effect) => self matches Begun::ShowAfter(own) && own@ == effect,
            BegunState::PasteThenLook { writes, to_bottom } => self matches Begun::PasteThenLook {
                writes: own,
                to_bottom: own_to_bottom,
            } && shown_writes(own@) == writes && own_to_bottom == to_bottom,
        }
    }
}

pub open spec fn step_begun(outcome: Result<EffectState, Error>) -> BegunState {
    match outcome {
        Ok(effect) => BegunState::ShowAfter(effect),
        Err(error) => BegunState::Failed(error),
    }
}

impl RmuxState {
    /// Whether there is what a request acts on.
    pub open spec fn can_begin(self, request: ClientRequest) -> bool {
        match request {
            ClientRequest::Key(key) => self.can_take(
                self.key_meaning(vstd::std_specs::convert::FromSpec::from_spec(key)),
            ),
            ClientRequest::Paste(_) | ClientRequest::Write(_) => self.can_type(),
            ClientRequest::Command(command) => self.can_apply(command),
            _ => true,
        }
    }

    /// What a request does, and what it leaves to be done.
    pub open spec fn request_begun(
        self,
        request: ClientRequest,
        bracketed: Seq<u64>,
        report: Option<Seq<u8>>,
    ) -> (RmuxState, BegunState) {
        match request {
            ClientRequest::Resize(size) => (
                RmuxState { tty_size: size, ..self },
                BegunState::ShowAfter(EffectState::Nothing),
            ),
            ClientRequest::Key(key) => {
                let (state, outcome) = self.key_handled(
                    vstd::std_specs::convert::FromSpec::from_spec(key),
                );
                (state, step_begun(outcome))
            },
            ClientRequest::Paste(text) => (
                self,
                BegunState::PasteThenLook {
                    writes: self.pasted(vstd::utf8::encode_utf8(text@), bracketed),
                    to_bottom: true,
                },
            ),
            ClientRequest::Mouse(mouse) => {
                let (state, effect) = self.mouse_handled(mouse, report);
                (
                    state,
                    match effect {
                        Some(effect) => BegunState::ShowAfter(effect),
                        None => BegunState::Ignored,
                    },
                )
            },
            ClientRequest::Snapshot => (self, BegunState::ShowAfter(EffectState::Nothing)),
            ClientRequest::Write(bytes) => (self, BegunState::ShowAfter(self.typed(bytes@))),
            ClientRequest::Command(command) => {
                let (state, outcome) = RmuxState { selection: None, ..self }.command_applied(
                    command,
                );
                (state, step_begun(outcome))
            },
            ClientRequest::Shutdown => (self, BegunState::ShutDown),
        }
    }
}

/// Whether there is what a request acts on.
pub fn can_serve(app: &Rmux, request: &ClientRequest) -> (result: bool)
    requires
        app@.sound(),
    ensures
        result == app@.can_begin(*request),
{
    match request {
        ClientRequest::Key(key) => app.can_handle_key(KeyEvent::from(*key)),
        ClientRequest::Paste(_) => app.can_type(),
        ClientRequest::Write(_) => app.can_type(),
        ClientRequest::Command(command) => match command {
            RmuxCommand::SplitWindow { .. } => app.can_split(),
            RmuxCommand::SendPrefix => app.can_type(),
            RmuxCommand::NewWindow { .. } => app.can_open_window(),
            RmuxCommand::BreakPane { .. } => app.can_break(),
            RmuxCommand::RespawnWindow { .. } => app.has_pane_id(),
            _ => true,
        },
        _ => true,
    }
}

/// The answer to a request that failed.
pub fn error_response(error: &Error) -> (result: ServerResponse)
    ensures
        result matches ServerResponse::Error(message) && message@ == error.text(),
{
    ServerResponse::Error(error.message())
}

fn begun_by(outcome: Result<Effect, Error>) -> (result: Begun)
    ensures
        result.is(step_begun(crate::state::outcome(outcome))),
        result matches Begun::ShowAfter(effect) ==> outcome == Ok::<Effect, Error>(effect),
{
    match outcome {
        Ok(effect) => Begun::ShowAfter(effect),
        Err(error) => Begun::Answered(error_response(&error)),
    }
}

/// Begins to serve a request. `bracketed` are the panes whose programs asked to
/// be told where a paste starts and ends, and `report` is what the terminal
/// under the mouse wants to be sent.
pub fn begin_request(
    app: &mut Rmux,
    request: ClientRequest,
    bracketed: &Vec<u64>,
    report: Option<Vec<u8>>,
) -> (result: Begun)
    requires
        old(app)@.sound(),
        old(app)@.can_begin(request),
    ensures
        ({
            let bytes = match report {
                Some(bytes) => Some(bytes@),
                None => None,
            };
            let (state, begun) = old(app)@.request_begun(request, bracketed@, bytes);
            final(app)@ == state && result.is(begun)
        }),
        final(app)@.sound(),
        result matches Begun::ShowAfter(Effect::Spawn(spawn)) ==> final(app)@.awaits(spawn@),
{
    match request {
        ClientRequest::Resize(size) => {
            app.resize(size);
            Begun::ShowAfter(Effect::Nothing)
        },
        ClientRequest::Key(key) => begun_by(app.handle_key(KeyEvent::from(key))),
        ClientRequest::Paste(text) => Begun::PasteThenLook {
            writes: app.paste_active(text.as_str().as_bytes(), bracketed),
            to_bottom: true,
        },
        ClientRequest::Mouse(mouse) => match app.handle_mouse(mouse, report) {
            Some(effect) => Begun::ShowAfter(effect),
            None => Begun::Answered(ServerResponse::Noop),
        },
        ClientRequest::Snapshot => Begun::ShowAfter(Effect::Nothing),
        ClientRequest::Write(bytes) => Begun::ShowAfter(app.write_active(bytes)),
        ClientRequest::Command(command) => {
            app.clear_selection();
            begun_by(apply_rmux_command(app, command))
        },
        ClientRequest::Shutdown => Begun::Answered(ServerResponse::Shutdown),
    }
}

/// What a request is answered once its effect is done.
#[derive(Debug)]
pub enum Pending {
    Response(ServerResponse),
    /// A view of the session as it is then.
    View,
}

/// What the reason to end, if there is one, makes of an answer.
pub open spec fn pending_for(reason: Option<ExitReason>, with_view: bool) -> Pending {
    match reason {
        Some(ExitReason::Detach) => Pending::Response(ServerResponse::Detached),
        Some(ExitReason::Quit) => Pending::Response(ServerResponse::Shutdown),
        None => if with_view {
            Pending::View
        } else {
            Pending::Response(ServerResponse::Noop)
        },
    }
}

/// Closes the panes of ended terminals, and says what a request is answered:
/// a view, unless the client or the session ends.
pub fn pending_after_drain(app: &mut Rmux, exited: &Vec<(usize, usize)>) -> (result: Pending)
    requires
        old(app)@.sound(),
    ensures
        ({
            let drained = old(app)@.all_exited_closed(in_order(exited@));
            &&& result == pending_for(drained.exit_reason, true)
            &&& final(app)@ == (RmuxState { exit_reason: None, ..drained })
        }),
        final(app)@.sound(),
{
    app.drain_events(exited);
    match app.take_exit_reason() {
        Some(ExitReason::Detach) => Pending::Response(ServerResponse::Detached),
        Some(ExitReason::Quit) => Pending::Response(ServerResponse::Shutdown),
        None => Pending::View,
    }
}

/// Closes the panes of ended terminals, and says what a paste is answered:
/// nothing in particular, unless the client or the session ends.
pub fn pending_without_view(app: &mut Rmux, exited: &Vec<(usize, usize)>) -> (result: Pending)
    requires
        old(app)@.sound(),
    ensures
        ({
            let drained = old(app)@.all_exited_closed(in_order(exited@));
            &&& result == pending_for(drained.exit_reason, false)
            &&& final(app)@ == (RmuxState { exit_reason: None, ..drained })
        }),
        final(app)@.sound(),
{
    app.drain_events(exited);
    match app.take_exit_reason() {
        Some(ExitReason::Detach) => Pending::Response(ServerResponse::Detached),
        Some(ExitReason::Quit) => Pending::Response(ServerResponse::Shutdown),
        None => Pending::Response(ServerResponse::Noop),
    }
}

/// The answer that a client gets in the end: that it is detached, where all
/// clients were since it was last served.
pub open spec fn settled(generation: u64, seen: u64, response: ServerResponse) -> ServerResponse {
    if generation != seen {
        ServerResponse::Detached
    } else {
        response
    }
}

pub fn settle_response(generation: u64, seen: &mut u64, response: ServerResponse) -> (result:
    ServerResponse)
    ensures
        *final(seen) == generation,
        result == settled(generation, *old(seen), response),
{
    if generation != *seen {
        *seen = generation;
        ServerResponse::Detached
    } else {
        response
    }
}

/// What a server does with a client once it was answered.
#[derive(Debug, Clone, Copy, PartialEq, Eq, Structural)]
pub enum AfterResponse {
    Serve,
    Close,
    ShutDown,
}

pub open spec fn next_step(response: ServerResponse) -> AfterResponse {
    match response {
        ServerResponse::Shutdown => AfterResponse::ShutDown,
        ServerResponse::Detached | ServerResponse::Error(_) => AfterResponse::Close,
        ServerResponse::View(_) | ServerResponse::Noop => AfterResponse::Serve,
    }
}

pub fn after_response(response: &ServerResponse) -> (result: AfterResponse)
    ensures
        result == next_step(*response),
{
    match response {
        ServerResponse::Shutdown => AfterResponse::ShutDown,
        ServerResponse::Detached => AfterResponse::Close,
        ServerResponse::Error(_) => AfterResponse::Close,
        ServerResponse::View(_) => AfterResponse::Serve,
        ServerResponse::Noop => AfterResponse::Serve,
    }
}

/// What follows once a response was written, or could not be: with a client that
/// cannot be written to nothing more is done.
pub open spec fn step_after_write(next: AfterResponse, written: bool) -> AfterResponse {
    if written {
        next
    } else {
        AfterResponse::Close
    }
}

pub fn after_write(next: AfterResponse, written: bool) -> (result: AfterResponse)
    ensures
        result == step_after_write(next, written),
{
    if written {
        next
    } else {
        AfterResponse::Close
    }
}

/// What the session answers, and the count of detachments then.
pub struct TurnAnswer {
    pub generation: u64,
    pub response: ServerResponse,
}

/// One turn of a connection. There is no answer where no request could be read;
/// `written` says whether the response went out.
pub struct ConnectionTurn {
    pub answer: Option<TurnAnswer>,
    pub written: bool,
}

/// What comes of a connection.
#[verifier::ext_equal]
pub struct ConnectionRun {
    /// How many requests were read.
    pub read: nat,
    /// The responses that went out.
    pub responses: Seq<ServerResponse>,
    /// Whether the server was shut down.
    pub shutdown: bool,
}

/// What comes of a connection whose turns could be these, from a count of
/// detachments on.
pub open spec fn connection_run(seen: u64, turns: Seq<ConnectionTurn>) -> ConnectionRun
    decreases turns.len(),
{
    if turns.len() == 0 {
        ConnectionRun { read: 0, responses: seq![], shutdown: false }
    } else {
        match turns[0].answer {
            None => ConnectionRun { read: 0, responses: seq![], shutdown: false },
            Some(answer) => {
                let response = settled(answer.generation, seen, answer.response);
                let out = if turns[0].written {
                    seq![response]
                } else {
                    seq![]
                };
                match step_after_write(next_step(response), turns[0].written) {
                    AfterResponse::Serve => {
                        let rest = connection_run(answer.generation, turns.skip(1));
                        ConnectionRun {
                            read: rest.read + 1,
                            responses: out + rest.responses,
                            shutdown: rest.shutdown,
                        }
                    },
                    AfterResponse::Close => ConnectionRun {
                        read: 1,
                        responses: out,
                        shutdown: false,
                    },
                    AfterResponse::ShutDown => ConnectionRun {
                        read: 1,
                        responses: out,
                        shutdown: true,
                    },
                }
            },
        }
    }
}

/// The count of detachments that a client had seen before a turn: that of the
/// turn before, or the one it started with.
pub open spec fn seen_before(seen: u64, turns: Seq<ConnectionTurn>, turn: int) -> u64 {
    if turn <= 0 {
        seen
    } else {
        turns[turn - 1].answer->0.generation
    }
}

/// On a connection every request that is read gets one response, in order, unless
/// it cannot be written, which ends the connection; the first response that says
/// that the client is detached, that the session shut down or that the request
/// failed is the last, and no request is read after it; what cannot be read gets
/// no response and ends the connection; and the server is shut down exactly where
/// a response said so.
pub proof fn law_connection_answers_in_order(seen: u64, turns: Seq<ConnectionTurn>)
    ensures
        ({
            let run = connection_run(seen, turns);
            let count = run.responses.len();
            &&& count <= run.read <= count + 1
            &&& run.read <= turns.len()
            &&& forall|i: int|
                0 <= i < run.read ==> (#[trigger] turns[i]).answer is Some
            &&& run.read == count + 1 ==> !turns[count as int].written
            &&& forall|i: int|
                0 <= i < count ==> turns[i].written && #[trigger] run.responses[i] == settled(
                    turns[i].answer->0.generation,
                    seen_before(seen, turns, i),
                    turns[i].answer->0.response,
                )
            &&& forall|i: int|
                0 <= i < count - 1 ==> next_step(#[trigger] run.responses[i])
                    == AfterResponse::Serve
            &&& run.read > count && count > 0 ==> next_step(run.responses.last())
                == AfterResponse::Serve
            &&& run.read < turns.len() && turns[run.read as int].answer is Some ==> run.read
                > count || (count > 0 && next_step(run.responses.last()) != AfterResponse::Serve)
            &&& run.shutdown <==> count > 0 && run.responses.last() is Shutdown
        }),
    decreases turns.len(),
{
    let run = connection_run(seen, turns);
    if turns.len() > 0 && turns[0].answer is Some {
        let answer = turns[0].answer->0;
        let response = settled(answer.generation, seen, answer.response);
        if turns[0].written && next_step(response) == AfterResponse::Serve {
            let later = turns.skip(1);
            let rest = connection_run(answer.generation, later);
            law_connection_answers_in_order(answer.generation, later);
            assert(run.responses =~= seq![response] + rest.responses);
            assert forall|i: int| 0 <= i < run.read implies (#[trigger] turns[i]).answer is Some by {
                if i > 0 {
                    assert(later[i - 1] == turns[i]);
                }
            }
            assert forall|i: int| 0 <= i < run.responses.len() implies turns[i].written
                && #[trigger] run.responses[i] == settled(
                turns[i].answer->0.generation,
                seen_before(seen, turns, i),
                turns[i].answer->0.response,
            ) by {
                if i > 0 {
                    assert(run.responses[i] == rest.responses[i - 1]);
                    assert(later[i - 1] == turns[i]);
                    if i > 1 {
                        assert(later[i - 2] == turns[i - 1]);
                    }
                }
            }
            assert forall|i: int| 0 <= i < run.responses.len() - 1 implies next_step(
                #[trigger] run.responses[i],
            ) == AfterResponse::Serve by {
                if i > 0 {
                    assert(run.responses[i] == rest.responses[i - 1]);
                }
            }
            if rest.responses.len() > 0 {
                assert(run.responses.last() == rest.responses.last());
            } else {
                assert(run.responses.last() == response);
            }
        }
    }
}

/// A request that is refused is answered with the reason in words, which is what
/// the client tells its user, and the connection is closed.
pub proof fn law_refused_request_is_told(
    state: RmuxState,
    request: ClientRequest,
    bracketed: Seq<u64>,
    report: Option<Seq<u8>>,
    begun: Begun,
)
    requires
        state.request_begun(request, bracketed, report).1 is Failed,
        begun.is(state.request_begun(request, bracketed, report).1),
    ensures
        begun matches Begun::Answered(response) && next_step(response) == AfterResponse::Close
            && crate::target::told_without_view(response) == state.request_begun(
            request,
            bracketed,
            report,
        ).1->Failed_0.text(),
{
}

/// Whatever is typed, written or pasted brings the panes that it goes to back to
/// their last lines; a mouse report leaves its pane scrolled as it is.
pub proof fn law_input_shows_last_lines(
    state: RmuxState,
    request: ClientRequest,
    bracketed: Seq<u64>,
    report: Option<Seq<u8>>,
)
    ensures
        match state.request_begun(request, bracketed, report).1 {
            BegunState::ShowAfter(EffectState::Input { to_bottom, .. }) => to_bottom,
            BegunState::PasteThenLook { to_bottom, .. } => to_bottom,
            BegunState::ShowAfter(EffectState::Report { to_bottom, .. }) => !to_bottom,
            _ => true,
        },
{
}

/// Whether a server that serves some clients takes another.
pub fn takes_client(active: usize) -> (result: bool)
    ensures
        result == (active < MAX_CLIENT_CONNECTIONS),
{
    active < MAX_CLIENT_CONNECTIONS
}

} // verus!
