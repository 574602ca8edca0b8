//! A client: what it asks of a session for each event of its terminal, and what
//! it does with the answers.

use vstd::prelude::*;
#[allow(unused_imports)]
use vstd::string::*;

use crate::error::Error;
use crate::keys::KeyEvent;
use crate::protocol::{
    ClientRequest, MouseEvent, ServerResponse, SessionView, TtySize, WireKey, WireMouse,
};
#[allow(unused_imports)]
use crate::render::texts;
use crate::text::chars_of;

verus! {

/// An event of the client's own terminal.
#[derive(Debug)]
pub enum TerminalEvent {
    Key(KeyEvent),
    Paste(String),
    Mouse(MouseEvent),
    /// Anything that means nothing here.
    Other,
}

/// What is asked of the session for an event: nothing for an empty paste.
pub fn terminal_event_request(event: TerminalEvent) -> (result: Option<ClientRequest>)
    ensures
        result == match event {
            TerminalEvent::Key(key) => Some(
                ClientRequest::Key(vstd::std_specs::convert::FromSpec::from_spec(key)),
            ),
            TerminalEvent::Paste(text) => if text@.len() > 0 {
                Some(ClientRequest::Paste(text))
            } else {
                None
            },
            TerminalEvent::Mouse(mouse) => Some(
                ClientRequest::Mouse(vstd::std_specs::convert::FromSpec::from_spec(mouse)),
            ),
            TerminalEvent::Other => None,
        },
{
    match event {
        TerminalEvent::Key(key) => Some(ClientRequest::Key(WireKey::from(key))),
        TerminalEvent::Paste(text) => {
            if chars_of(text.as_str()).len() > 0 {
                Some(ClientRequest::Paste(text))
            } else {
                None
            }
        },
        TerminalEvent::Mouse(mouse) => Some(ClientRequest::Mouse(WireMouse::from(mouse))),
        TerminalEvent::Other => None,
    }
}

/// What is asked of the session for a size: nothing where it has not changed.
pub fn resize_request(latest_size: TtySize, last_size: &mut TtySize) -> (result: Option<
    ClientRequest,
>)
    ensures
        result == if latest_size == *old(last_size) {
            None
        } else {
            Some(ClientRequest::Resize(latest_size))
        },
        *final(last_size) == latest_size,
{
    if latest_size == *last_size {
        return None;
    }
    *last_size = latest_size;
    Some(ClientRequest::Resize(latest_size))
}

/// Why reading from or writing to a stream failed.
#[derive(Debug, Clone, Copy, PartialEq, Eq, Structural)]
pub enum StreamFault {
    BrokenPipe,
    ConnectionReset,
    UnexpectedEof,
    NotConnected,
    Other,
}

/// Whether the other end of a socket is gone.
pub open spec fn closed(fault: StreamFault) -> bool {
    fault == StreamFault::BrokenPipe || fault == StreamFault::ConnectionReset || fault
        == StreamFault::UnexpectedEof
}

pub fn is_socket_closed(fault: StreamFault) -> (result: bool)
    ensures
        result == closed(fault),
{
    match fault {
        StreamFault::BrokenPipe => true,
        StreamFault::ConnectionReset => true,
        StreamFault::UnexpectedEof => true,
        _ => false,
    }
}

/// Whether the client's own terminal is gone.
pub fn is_terminal_output_closed(fault: StreamFault) -> (result: bool)
    ensures
        result == (fault == StreamFault::BrokenPipe || fault == StreamFault::ConnectionReset
            || fault == StreamFault::NotConnected),
{
    match fault {
        StreamFault::BrokenPipe => true,
        StreamFault::ConnectionReset => true,
        StreamFault::NotConnected => true,
        _ => false,
    }
}

/// Whether a request that failed is made once more on a new connection: where
/// the old one was closed, and only once.
pub fn retries_request(fault: StreamFault, attempts: u32) -> (result: bool)
    ensures
        result == (closed(fault) && attempts <= 1),
{
    is_socket_closed(fault) && attempts <= 1
}

/// How a paste is asked for: as one paste, or as plain bytes of a server that
/// knows no pastes.
pub enum PasteForm {
    Paste(Seq<char>),
    Write(Seq<u8>),
}

pub open spec fn paste_form(text: Seq<char>, supported: bool) -> PasteForm {
    if supported {
        PasteForm::Paste(text)
    } else {
        PasteForm::Write(vstd::utf8::encode_utf8(text))
    }
}

/// Whether a request asks for a paste in a form.
pub open spec fn asks_for(request: ClientRequest, form: PasteForm) -> bool {
    match form {
        PasteForm::Paste(text) => request matches ClientRequest::Paste(own) && own@ == text,
        PasteForm::Write(bytes) => request matches ClientRequest::Write(own) && own@ == bytes,
    }
}

pub fn paste_request(text: String, supported: bool) -> (result: ClientRequest)
    ensures
        asks_for(result, paste_form(text@, supported)),
{
    if supported {
        ClientRequest::Paste(text)
    } else {
        ClientRequest::Write(text.as_str().as_bytes_vec())
    }
}

/// Whether a paste that failed, on its connection and on a new one, is asked for
/// as plain bytes instead: where the server closed both times. It then knows no
/// pastes, and none is asked of it again.
pub fn paste_falls_back(fault: StreamFault, supported: &mut bool) -> (result: bool)
    ensures
        result == (*old(supported) && closed(fault)),
        *final(supported) == (*old(supported) && !result),
{
    if *supported && is_socket_closed(fault) {
        *supported = false;
        return true;
    }
    false
}

/// How the asking for a paste stands: whether the server knows pastes, as far as
/// the client can tell, and how often the paste was asked for in that form.
#[derive(Debug, Clone, Copy, PartialEq, Eq, Structural)]
pub struct PasteAttempt {
    pub supported: bool,
    pub attempts: u32,
}

impl PasteAttempt {
    pub open spec fn started(supported: bool) -> PasteAttempt {
        PasteAttempt { supported, attempts: 1 }
    }

    /// The attempt after one that failed, on a new connection: the same again, or
    /// then as plain bytes. `None` where the paste is given up.
    pub open spec fn after(self, fault: StreamFault) -> Option<PasteAttempt> {
        if closed(fault) && self.attempts <= 1 {
            Some(PasteAttempt { attempts: (self.attempts + 1) as u32, ..self })
        } else if closed(fault) && self.supported {
            Some(PasteAttempt::started(false))
        } else {
            None
        }
    }

    /// The first attempt.
    pub fn new(supported: bool) -> (result: PasteAttempt)
        ensures
            result == PasteAttempt::started(supported),
    {
        PasteAttempt { supported, attempts: 1 }
    }

    /// Goes on to the next attempt after one that failed, where there is one.
    pub fn try_again(&mut self, fault: StreamFault) -> (result: bool)
        ensures
            match old(self).after(fault) {
                Some(next) => result && *final(self) == next,
                None => !result && *final(self) == *old(self),
            },
    {
        if retries_request(fault, self.attempts) {
            self.attempts = self.attempts + 1;
            return true;
        }
        if paste_falls_back(fault, &mut self.supported) {
            self.attempts = 1;
            return true;
        }
        false
    }
}

/// What comes of asking for a paste: what was sent, whether the server still
/// counts as one that knows pastes, and whether it answered.
#[verifier::ext_equal]
pub struct PasteRun {
    pub sent: Seq<PasteForm>,
    pub supported: bool,
    pub answered: bool,
}

/// What comes of asking for a paste where the attempts end like this, one after
/// another: `None` is an answer.
pub open spec fn paste_run(
    text: Seq<char>,
    attempt: PasteAttempt,
    ends: Seq<Option<StreamFault>>,
) -> PasteRun
    decreases ends.len(),
{
    let form = paste_form(text, attempt.supported);
    if ends.len() == 0 {
        PasteRun { sent: seq![], supported: attempt.supported, answered: false }
    } else {
        match ends[0] {
            None => PasteRun {
                sent: seq![form],
                supported: attempt.supported,
                answered: true,
            },
            Some(fault) => match attempt.after(fault) {
                Some(next) => {
                    let rest = paste_run(text, next, ends.skip(1));
                    PasteRun { sent: seq![form] + rest.sent, ..rest }
                },
                None => PasteRun {
                    sent: seq![form],
                    supported: attempt.supported,
                    answered: false,
                },
            },
        }
    }
}

/// A server that closes the connection on a paste twice is asked for the same as
/// plain bytes, once, and counts as one that knows no pastes. One that closes it
/// once and then answers keeps being asked for pastes.
pub proof fn law_paste_falls_back_after_two_closes(
    text: Seq<char>,
    first: StreamFault,
    second: StreamFault,
)
    requires
        closed(first),
        closed(second),
    ensures
        paste_run(text, PasteAttempt::started(true), seq![Some(first), Some(second), None]) == (
        PasteRun {
            sent: seq![
                paste_form(text, true),
                paste_form(text, true),
                paste_form(text, false),
            ],
            supported: false,
            answered: true,
        }),
        paste_run(text, PasteAttempt::started(true), seq![Some(first), None]) == (PasteRun {
            sent: seq![paste_form(text, true), paste_form(text, true)],
            supported: true,
            answered: true,
        }),
{
    let ends = seq![Some(first), Some(second), None::<StreamFault>];
    let once = seq![Some(first), None::<StreamFault>];
    reveal_with_fuel(paste_run, 4);
    assert(ends.skip(1) =~= seq![Some(second), None::<StreamFault>]);
    assert(ends.skip(1).skip(1) =~= seq![None::<StreamFault>]);
    assert(once.skip(1) =~= seq![None::<StreamFault>]);
    assert(paste_run(text, PasteAttempt::started(true), ends).sent =~= seq![
        paste_form(text, true),
        paste_form(text, true),
        paste_form(text, false),
    ]);
    assert(paste_run(text, PasteAttempt::started(true), once).sent =~= seq![
        paste_form(text, true),
        paste_form(text, true),
    ]);
}

/// A server that knows no pastes is only ever asked for plain bytes, however the
/// attempts end.
pub proof fn law_unknown_paste_is_written(
    text: Seq<char>,
    attempt: PasteAttempt,
    ends: Seq<Option<StreamFault>>,
)
    requires
        !attempt.supported,
    ensures
        !paste_run(text, attempt, ends).supported,
        forall|i: int|
            0 <= i < paste_run(text, attempt, ends).sent.len()
                ==> #[trigger] paste_run(text, attempt, ends).sent[i] == paste_form(text, false),
    decreases ends.len(),
{
    if ends.len() > 0 {
        if let Some(fault) = ends[0] {
            if let Some(next) = attempt.after(fault) {
                law_unknown_paste_is_written(text, next, ends.skip(1));
            }
        }
    }
}

/// Where the server still counts as one that knows pastes in the end, nothing but
/// pastes was sent.
pub proof fn law_known_paste_is_pasted(
    text: Seq<char>,
    attempt: PasteAttempt,
    ends: Seq<Option<StreamFault>>,
)
    requires
        paste_run(text, attempt, ends).supported,
    ensures
        attempt.supported,
        forall|i: int|
            0 <= i < paste_run(text, attempt, ends).sent.len()
                ==> #[trigger] paste_run(text, attempt, ends).sent[i] == paste_form(text, true),
    decreases ends.len(),
{
    if ends.len() > 0 {
        if let Some(fault) = ends[0] {
            if let Some(next) = attempt.after(fault) {
                law_known_paste_is_pasted(text, next, ends.skip(1));
            }
        }
    }
}

/// What a client does next.
#[derive(Debug)]
pub enum ClientStep {
    /// Draw a view, then wait for the next event.
    Draw(SessionView),
    /// Wait for the next event.
    Wait,
    /// Ask for a view.
    Snapshot,
    End,
    Fail(Error),
}

/// What a client does after an event for which nothing was asked. `early` says
/// that the last view was drawn less than a tick ago.
pub fn after_no_request(early: bool) -> (result: ClientStep)
    ensures
        result == if early {
            ClientStep::Wait
        } else {
            ClientStep::Snapshot
        },
{
    if early {
        ClientStep::Wait
    } else {
        ClientStep::Snapshot
    }
}

/// What a client does with the answer to what it asked for an event. What a
/// paste did is looked at right away.
pub fn after_event_response(response: ServerResponse, is_paste: bool, early: bool) -> (result:
    ClientStep)
    ensures
        result == match response {
            ServerResponse::View(view) => ClientStep::Draw(view),
            ServerResponse::Noop => if !is_paste && early {
                ClientStep::Wait
            } else {
                ClientStep::Snapshot
            },
            ServerResponse::Detached | ServerResponse::Shutdown => ClientStep::End,
            ServerResponse::Error(message) => ClientStep::Fail(Error::Server { message }),
        },
{
    match response {
        ServerResponse::View(view) => ClientStep::Draw(view),
        ServerResponse::Noop => if !is_paste && early {
            ClientStep::Wait
        } else {
            ClientStep::Snapshot
        },
        ServerResponse::Detached => ClientStep::End,
        ServerResponse::Shutdown => ClientStep::End,
        ServerResponse::Error(message) => ClientStep::Fail(Error::Server { message }),
    }
}

/// What a client does with the view that it asked for.
pub fn after_snapshot(response: ServerResponse) -> (result: ClientStep)
    ensures
        result == match response {
            ServerResponse::View(view) => ClientStep::Draw(view),
            ServerResponse::Noop => ClientStep::Wait,
            ServerResponse::Detached | ServerResponse::Shutdown => ClientStep::End,
            ServerResponse::Error(message) => ClientStep::Fail(Error::Server { message }),
        },
{
    match response {
        ServerResponse::View(view) => ClientStep::Draw(view),
        ServerResponse::Noop => ClientStep::Wait,
        ServerResponse::Detached => ClientStep::End,
        ServerResponse::Shutdown => ClientStep::End,
        ServerResponse::Error(message) => ClientStep::Fail(Error::Server { message }),
    }
}

/// What comes of having clients detached.
pub fn detach_outcome(response: ServerResponse) -> (result: Result<(), Error>)
    ensures
        result == match response {
            ServerResponse::View(_) | ServerResponse::Noop | ServerResponse::Detached => Ok::<
                (),
                Error,
            >(()),
            ServerResponse::Shutdown => Err(Error::SessionShutDown),
            ServerResponse::Error(message) => Err(Error::Server { message }),
        },
{
    match response {
        ServerResponse::View(_) => Ok(()),
        ServerResponse::Noop => Ok(()),
        ServerResponse::Detached => Ok(()),
        ServerResponse::Shutdown => Err(Error::SessionShutDown),
        ServerResponse::Error(message) => Err(Error::Server { message }),
    }
}

/// What a client that only holds a connection does with an answer.
#[derive(Debug)]
pub enum HoldStep {
    Hold,
    End,
    Fail(Error),
}

pub fn hold_step(response: ServerResponse) -> (result: HoldStep)
    ensures
        result == match response {
            ServerResponse::View(_) | ServerResponse::Noop => HoldStep::Hold,
            ServerResponse::Detached | ServerResponse::Shutdown => HoldStep::End,
            ServerResponse::Error(message) => HoldStep::Fail(Error::Server { message }),
        },
{
    match response {
        ServerResponse::View(_) => HoldStep::Hold,
        ServerResponse::Noop => HoldStep::Hold,
        ServerResponse::Detached => HoldStep::End,
        ServerResponse::Shutdown => HoldStep::End,
        ServerResponse::Error(message) => HoldStep::Fail(Error::Server { message }),
    }
}

/// Whether what is waited for has come: `None` where it is to be looked for
/// again.
pub fn wait_step(matched: bool, expired: bool, session: &str, pattern: Option<&str>) -> (result:
    Option<Result<(), Error>>)
    ensures
        if matched {
            result == Some(Ok::<(), Error>(()))
        } else if !expired {
            result is None
        } else {
            match pattern {
                Some(pattern) => result matches Some(
                    Err(Error::TimedOutOnText { session: own, pattern: text }),
                ) && own@ == session@ && text@ == pattern@,
                None => result matches Some(Err(Error::TimedOutOnSession { session: own })) && own@
                    == session@,
            }
        },
{
    if matched {
        return Some(Ok(()));
    }
    if !expired {
        return None;
    }
    Some(
        Err(
            match pattern {
                Some(pattern) => Error::TimedOutOnText {
                    session: session.to_string(),
                    pattern: pattern.to_string(),
                },
                None => Error::TimedOutOnSession { session: session.to_string() },
            },
        ),
    )
}

/// Whether a server that was started answers: `None` where it is to be tried
/// again.
pub fn start_step(connected: bool, expired: bool, session: &str) -> (result: Option<
    Result<(), Error>,
>)
    ensures
        if expired {
            result matches Some(Err(Error::ServerDidNotStart { session: own })) && own@ == session@
        } else if connected {
            result == Some(Ok::<(), Error>(()))
        } else {
            result is None
        },
{
    if expired {
        return Some(Err(Error::ServerDidNotStart { session: session.to_string() }));
    }
    if connected {
        Some(Ok(()))
    } else {
        None
    }
}

/// Sessions that could not be killed, and why, with `; ` between each two.
pub open spec fn failures_text(failures: Seq<(String, String)>) -> Seq<char>
    decreases failures.len(),
{
    if failures.len() == 0 {
        seq![]
    } else {
        let last = failures.last().0@ + ": "@ + failures.last().1@;
        if failures.len() == 1 {
            last
        } else {
            failures_text(failures.drop_last()) + "; "@ + last
        }
    }
}

/// What comes of killing every session, where some could not be killed.
pub fn kill_report(failures: &Vec<(String, String)>) -> (result: Result<(), Error>)
    ensures
        match result {
            Ok(_) => failures@.len() == 0,
            Err(error) => {
                &&& failures@.len() > 0
                &&& error matches Error::SessionsNotKilled { failures: text } && text@
                    == failures_text(failures@)
            },
        },
{
    if failures.len() == 0 {
        return Ok(());
    }
    let mut text = String::new();
    let mut i: usize = 0;
    assert(text@ =~= seq![]);
    assert(failures@.take(0) =~= seq![]);
    while i < failures.len()
        invariant
            i <= failures@.len(),
            text@ == failures_text(failures@.take(i as int)),
        decreases failures@.len() - i,
    {
        let ghost so_far = failures@.take(i + 1);
        assert(so_far.drop_last() =~= failures@.take(i as int));
        assert(so_far.last() == failures@[i as int]);
        let own = failures[i].0.as_str().to_string().concat(": ").concat(failures[i].1.as_str());
        if i == 0 {
            text = own;
        } else {
            text = text.concat("; ").concat(own.as_str());
        }
        i = i + 1;
    }
    assert(failures@.take(i as int) =~= failures@);
    Err(Error::SessionsNotKilled { failures: text })
}

} // verus!
