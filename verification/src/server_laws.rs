//! What a server and its clients are for: each request does what it asks for, and each
//! client is told what came of it.

use vstd::prelude::*;
#[allow(unused_imports)]
use vstd::string::*;

#[allow(unused_imports)]
use crate::client::{asks_for, closed, failures_text, paste_form, StreamFault};
#[allow(unused_imports)]
use crate::error::Error;
#[allow(unused_imports)]
use crate::ipc::{
    file_in, framed, is_safe, length_bytes, session_of, socket_file, socket_name, sorts_before,
    user_dir, MAX_FRAMED_SIZE,
};
#[allow(unused_imports)]
use crate::keys::KeyEvent;
#[allow(unused_imports)]
use crate::protocol::{ClientRequest, RmuxCommand, ServerResponse, TtySize, WireKey, WireMouse};
#[allow(unused_imports)]
use crate::server::{next_step, pending_for, settled, AfterResponse, BegunState, Pending};
#[allow(unused_imports)]
use crate::state::{EffectState, ExitReason, RmuxState};

verus! {

/// Looking at a session changes nothing. A new size is taken over and changes nothing else.
/// To shut down is answered at once.
pub proof fn law_looking_changes_nothing(
    state: RmuxState,
    size: TtySize,
    bracketed: Seq<u64>,
    report: Option<Seq<u8>>,
)
    ensures
        state.request_begun(ClientRequest::Snapshot, bracketed, report) == (
            state,
            BegunState::ShowAfter(EffectState::Nothing),
        ),
        state.request_begun(ClientRequest::Shutdown, bracketed, report) == (
            state,
            BegunState::ShutDown,
        ),
        ({
            let (after, begun) = state.request_begun(
                ClientRequest::Resize(size),
                bracketed,
                report,
            );
            &&& after.tty_size == size
            &&& after.session == state.session
            &&& after.selection == state.selection
            &&& after.prefix == state.prefix
            &&& begun == BegunState::ShowAfter(EffectState::Nothing)
        }),
{
}

/// Writing the bytes that a key sends comes to the same as the key, where it is typed; a
/// command that comes by itself does what the key for it does, and drops the selection.
pub proof fn law_requests_do_what_keys_do(
    state: RmuxState,
    wire: WireKey,
    bytes: Vec<u8>,
    command: RmuxCommand,
    bracketed: Seq<u64>,
    report: Option<Seq<u8>>,
)
    ensures
        ({
            let key = <KeyEvent as vstd::std_specs::convert::FromSpec<WireKey>>::from_spec(wire);
            let pressed = state.request_begun(ClientRequest::Key(wire), bracketed, report);
            let written = state.request_begun(ClientRequest::Write(bytes), bracketed, report);
            let asked = state.request_begun(ClientRequest::Command(command), bracketed, report);
            let dropped = RmuxState { selection: None, ..state };
            &&& state.key_handled(key) == (
                state,
                Ok::<EffectState, Error>(state.typed(bytes@)),
            ) ==> pressed == written
            &&& state.key_handled(key).1 is Err ==> pressed.1 == BegunState::Failed(
                state.key_handled(key).1->Err_0,
            )
            &&& state.key_handled(key).1 is Ok ==> pressed.1 == BegunState::ShowAfter(
                state.key_handled(key).1->Ok_0,
            )
            &&& pressed.0 == state.key_handled(key).0
            &&& written.0 == state
            &&& dropped.key_handled(key) == dropped.command_applied(command) ==> asked
                == dropped.request_begun(ClientRequest::Key(wire), bracketed, report)
            &&& asked.0.selection == dropped.command_applied(command).0.selection
        }),
{
}

/// A paste goes to the panes that its bytes go to when they are typed, without changing the
/// session; a mouse that does nothing is ignored.
pub proof fn law_paste_request_pastes(
    state: RmuxState,
    text: String,
    mouse: WireMouse,
    bracketed: Seq<u64>,
    report: Option<Seq<u8>>,
)
    ensures
        ({
            let (after, begun) = state.request_begun(
                ClientRequest::Paste(text),
                bracketed,
                report,
            );
            &&& after == state
            &&& begun matches BegunState::PasteThenLook { writes, .. } && writes == state.pasted(
                vstd::utf8::encode_utf8(text@),
                bracketed,
            )
        }),
        ({
            let (after, begun) = state.request_begun(
                ClientRequest::Mouse(mouse),
                bracketed,
                report,
            );
            let (moved, effect) = state.mouse_handled(mouse, report);
            &&& after == moved
            &&& effect is None <==> begun is Ignored
            &&& effect is Some ==> begun == BegunState::ShowAfter(effect->0)
        }),
{
}

/// A client that detaches is told so and let go; a session that ends is shut down with its
/// server; else the client is shown the session and served on. What was pasted is shown
/// with the next view.
pub proof fn law_answers_tell_what_ended(with_view: bool)
    ensures
        pending_for(Some(ExitReason::Detach), with_view) matches Pending::Response(response)
            && response is Detached && next_step(response) == AfterResponse::Close,
        pending_for(Some(ExitReason::Quit), with_view) matches Pending::Response(response)
            && response is Shutdown && next_step(response) == AfterResponse::ShutDown,
        pending_for(None, true) is View,
        pending_for(None, false) matches Pending::Response(response) && response is Noop
            && next_step(response) == AfterResponse::Serve,
{
}

/// Every client whose count of detachments is behind is told that it is detached, whatever
/// it asked for, and is let go; one that is not behind gets its answer.
pub proof fn law_detached_client_is_let_go(generation: u64, seen: u64, response: ServerResponse)
    ensures
        generation != seen ==> settled(generation, seen, response) is Detached && next_step(
            settled(generation, seen, response),
        ) == AfterResponse::Close,
        generation == seen ==> settled(generation, seen, response) == response,
        response is View ==> next_step(response) == AfterResponse::Serve,
        response is Error ==> next_step(response) == AfterResponse::Close,
{
}

/// Among two messages the shorter has the lesser header: the first byte in which the two
/// headers differ is less. Behind the header stands the message itself.
pub proof fn law_headers_put_the_highest_byte_first(first: Seq<u8>, second: Seq<u8>)
    requires
        first.len() < second.len() <= MAX_FRAMED_SIZE,
    ensures
        ({
            let a = framed(first);
            let b = framed(second);
            ||| a[0] < b[0]
            ||| a[0] == b[0] && a[1] < b[1]
            ||| a[0] == b[0] && a[1] == b[1] && a[2] < b[2]
            ||| a[0] == b[0] && a[1] == b[1] && a[2] == b[2] && a[3] < b[3]
        }),
        framed(first).len() == first.len() + 4,
        framed(first).skip(4) == first,
{
    let n = first.len();
    let m = second.len();
    lemma_header_digits(n);
    lemma_header_digits(m);
    assert(framed(first).skip(4) =~= first);
}

proof fn lemma_header_digits(n: nat)
    requires
        n <= MAX_FRAMED_SIZE,
    ensures
        ({
            let bytes = length_bytes(n);
            n == bytes[0] * 0x100_0000 + bytes[1] * 0x1_0000 + bytes[2] * 0x100 + bytes[3]
        }),
{
    let a = n / 0x100;
    let b = n / 0x1_0000;
    let c = n / 0x100_0000;
    assert(n == a * 0x100 + n % 0x100);
    assert(a == b * 0x100 + a % 0x100);
    assert(b == c * 0x100 + b % 0x100);
    assert(c % 0x100 == c);
}

/// A name of safe characters is the name of its own socket; of another name the safe
/// characters stay in their places and `_` stands for each of the others. A session without
/// a name is the default one.
pub proof fn law_socket_is_named_after_session(session: Seq<char>, i: int)
    requires
        0 <= i < session.len(),
    ensures
        socket_name(session).len() == session.len(),
        is_safe(session[i]) ==> socket_name(session)[i] == session[i],
        !is_safe(session[i]) ==> socket_name(session)[i] == '_',
        (forall|k: int| 0 <= k < session.len() ==> is_safe(#[trigger] session[k])) ==> socket_name(
            session,
        ) == session,
        socket_name(seq![]) == "default"@,
{
    if forall|k: int| 0 <= k < session.len() ==> is_safe(#[trigger] session[k]) {
        assert(socket_name(session) =~= session);
    }
}

/// Safe characters are the letters and digits of ASCII, `-` and `_`.
pub proof fn law_safe_characters(c: char)
    ensures
        is_safe(c) ==> (c as u32) < 128 && c != '/' && c != '.' && !crate::text::white_space(c),
        'a' <= c <= 'z' ==> is_safe(c),
        'A' <= c <= 'Z' ==> is_safe(c),
        '0' <= c <= '9' ==> is_safe(c),
        is_safe('-') && is_safe('_'),
{
}

/// The sockets of a user stand in a directory of the user's own, each in a file named after
/// its session.
pub proof fn law_sockets_stand_in_user_directory(user: &str, session: Seq<char>)
    requires
        user@.len() > 0 ==> user@.last() != '/',
    ensures
        file_in(user_dir(Some(user)), socket_file(session)) == "/tmp/rmux-"@ + user@ + "/"@
            + socket_name(session) + ".sock"@,
{
    reveal_strlit("/tmp/rmux-");
    reveal_strlit("/");
    let dir = user_dir(Some(user));
    assert(dir.last() != '/');
    assert(file_in(dir, socket_file(session)) =~= "/tmp/rmux-"@ + user@ + "/"@ + socket_name(
        session,
    ) + ".sock"@);
}

/// A file that does not end in `.sock`, or has nothing in front of it, is no socket.
pub proof fn law_other_files_are_no_sockets(file: Seq<char>, session: Seq<char>)
    ensures
        session_of(file) == Some(session) <==> session.len() > 0 && file == session + ".sock"@,
{
    reveal_strlit(".sock");
    if session.len() > 0 && file == session + ".sock"@ {
        let stem = file.len() - 5;
        assert(file.skip(stem) =~= ".sock"@);
        assert(file.take(stem) =~= session);
    }
    if session_of(file) == Some(session) {
        let stem = file.len() - 5;
        assert(file =~= file.take(stem) + file.skip(stem));
    }
}

/// Of two names that are the same up to a place, the one with the lesser character there
/// sorts first; a name sorts before every longer one that begins with it.
pub proof fn law_names_sort_by_first_difference(
    front: Seq<char>,
    a: char,
    b: char,
    first: Seq<char>,
    second: Seq<char>,
)
    ensures
        sorts_before(front + seq![a] + first, front + seq![b] + second) <==> a < b || a == b
            && sorts_before(first, second),
        sorts_before(front, front + seq![b] + second),
        !sorts_before(front + seq![b] + second, front),
    decreases front.len(),
{
    let x = front + seq![a] + first;
    let y = front + seq![b] + second;
    if front.len() == 0 {
        assert(x.skip(1) =~= first);
        assert(y.skip(1) =~= second);
    } else {
        law_names_sort_by_first_difference(front.skip(1), a, b, first, second);
        assert(x.skip(1) =~= front.skip(1) + seq![a] + first);
        assert(y.skip(1) =~= front.skip(1) + seq![b] + second);
    }
}

/// The other end is gone where the pipe is broken, the connection is reset or the stream
/// ends early, and for no other reason.
pub proof fn law_closed_streams(fault: StreamFault)
    ensures
        closed(fault) <==> fault is BrokenPipe || fault is ConnectionReset || fault
            is UnexpectedEof,
{
}

/// A text is asked to be pasted as it is, and of a server that knows no pastes it is asked
/// to be written as its bytes.
pub proof fn law_pasted_text_is_sent_whole(text: Seq<char>, request: ClientRequest)
    ensures
        asks_for(request, paste_form(text, true)) <==> (request matches ClientRequest::Paste(own)
            && own@ == text),
        asks_for(request, paste_form(text, false)) <==> (request matches ClientRequest::Write(own)
            && own@ == vstd::utf8::encode_utf8(text)),
{
}

/// Sessions that could not be killed are told of in their order, each with its reason.
pub proof fn law_failures_are_told_in_order(
    failure: (String, String),
    first: Seq<(String, String)>,
    rest: Seq<(String, String)>,
)
    ensures
        failures_text(seq![failure]) == failure.0@ + ": "@ + failure.1@,
        first.len() > 0 && rest.len() > 0 ==> failures_text(first + rest) == failures_text(first)
            + "; "@ + failures_text(rest),
    decreases rest.len(),
{
    if first.len() > 0 && rest.len() > 0 {
        assert((first + rest).drop_last() =~= first + rest.drop_last());
        assert((first + rest).last() == rest.last());
        if rest.len() == 1 {
            assert(first + rest.drop_last() =~= first);
        } else {
            law_failures_are_told_in_order(failure, first, rest.drop_last());
        }
        assert(failures_text(first + rest) =~= failures_text(first) + "; "@ + failures_text(
            rest,
        ));
    }
}

} // verus!
