//! How clients and servers find each other, and how messages are framed on the
//! way between them.

use vstd::prelude::*;
#[allow(unused_imports)]
use vstd::string::*;

use crate::error::Error;
#[allow(unused_imports)]
use crate::render::texts;
use crate::text::{chars_of, string_between};

verus! {

/// The longest message that is read, in bytes.
pub const MAX_MESSAGE_SIZE: usize = 16_777_216;

/// The longest message whose length fits in front of it, in bytes.
pub const MAX_FRAMED_SIZE: u64 = 0xffff_ffff;

/// Who may use the directory of the sockets: its owner.
pub const SOCKET_DIR_MODE: u32 = 0o700;

/// Who may use a socket: its owner.
pub const SOCKET_MODE: u32 = 0o600;

/// A length as four bytes, the highest first.
pub open spec fn length_bytes(length: nat) -> Seq<u8> {
    seq![
        (length / 0x100_0000 % 0x100) as u8,
        (length / 0x1_0000 % 0x100) as u8,
        (length / 0x100 % 0x100) as u8,
        (length % 0x100) as u8,
    ]
}

/// The length that four bytes give, the highest first.
pub open spec fn length_of(header: Seq<u8>) -> nat {
    (header[0] * 0x100_0000 + header[1] * 0x1_0000 + header[2] * 0x100 + header[3]) as nat
}

/// A message with its length in front.
pub open spec fn framed(body: Seq<u8>) -> Seq<u8> {
    length_bytes(body.len()) + body
}

/// Puts the length of a message in front of it.
pub fn frame_message(body: &Vec<u8>) -> (result: Result<Vec<u8>, Error>)
    ensures
        match result {
            Ok(bytes) => body@.len() <= MAX_FRAMED_SIZE && bytes@ == framed(body@),
            Err(error) => body@.len() > MAX_FRAMED_SIZE && error == Error::MessageTooLarge,
        },
{
    let length: usize = body.len();
    if length as u64 > MAX_FRAMED_SIZE {
        return Err(Error::MessageTooLarge);
    }
    let n: u64 = length as u64;
    let mut bytes: Vec<u8> = Vec::new();
    bytes.push((n / 0x100_0000 % 0x100) as u8);
    bytes.push((n / 0x1_0000 % 0x100) as u8);
    bytes.push((n / 0x100 % 0x100) as u8);
    bytes.push((n % 0x100) as u8);
    assert(bytes@ =~= length_bytes(body@.len()));
    let mut i: usize = 0;
    while i < length
        invariant
            i <= length,
            length == body@.len(),
            bytes@ == length_bytes(body@.len()) + body@.take(i as int),
        decreases length - i,
    {
        bytes.push(body[i]);
        i = i + 1;
        assert(bytes@ =~= length_bytes(body@.len()) + body@.take(i as int));
    }
    assert(body@.take(i as int) =~= body@);
    Ok(bytes)
}

/// The length of the message that follows four bytes.
pub fn message_length(header: &[u8]) -> (result: Result<usize, Error>)
    requires
        header@.len() == 4,
    ensures
        match result {
            Ok(length) => length == length_of(header@) && length <= MAX_MESSAGE_SIZE,
            Err(error) => {
                &&& length_of(header@) > MAX_MESSAGE_SIZE
                &&& error == Error::MessageTooLong { bytes: length_of(header@) as usize }
            },
        },
{
    let high: usize = header[0] as usize * 0x100_0000 + header[1] as usize * 0x1_0000;
    let length: usize = high + header[2] as usize * 0x100 + header[3] as usize;
    if length > MAX_MESSAGE_SIZE {
        return Err(Error::MessageTooLong { bytes: length });
    }
    Ok(length)
}

/// The four bytes in front of a framed message give the length of the message,
/// and the message follows them.
pub proof fn law_framed_message_is_found(body: Seq<u8>)
    requires
        body.len() <= MAX_FRAMED_SIZE,
    ensures
        framed(body).len() == body.len() + 4,
        length_of(framed(body).take(4)) == body.len(),
        framed(body).skip(4) == body,
{
    let header = framed(body).take(4);
    assert(header =~= length_bytes(body.len()));
    assert(framed(body).skip(4) =~= body);
    lemma_length_bytes(body.len());
}

proof fn lemma_length_bytes(n: nat)
    requires
        n <= 0xffff_ffff,
    ensures
        length_of(length_bytes(n)) == n,
{
    let a = n / 0x100;
    let b = n / 0x1_0000;
    let c = n / 0x100_0000;
    assert(n == a * 0x100 + n % 0x100);
    assert(a == b * 0x100 + a % 0x100);
    assert(b == c * 0x100 + b % 0x100);
    assert(c % 0x100 == c);
}

/// Whether a character may stand in the name of a socket.
pub open spec fn is_safe(c: char) -> bool {
    'a' <= c <= 'z' || 'A' <= c <= 'Z' || '0' <= c <= '9' || c == '-' || c == '_'
}

/// A session name with every other character replaced by `_`.
pub open spec fn made_safe(session: Seq<char>) -> Seq<char> {
    session.map_values(
        |c: char|
            if is_safe(c) {
                c
            } else {
                '_'
            },
    )
}

/// The name under which a session has its socket.
pub open spec fn socket_name(session: Seq<char>) -> Seq<char> {
    if session.len() == 0 {
        "default"@
    } else {
        made_safe(session)
    }
}

pub fn sanitized_session_name(session: &str) -> (result: String)
    ensures
        result@ == socket_name(session@),
{
    let chars = chars_of(session);
    if chars.len() == 0 {
        return "default".to_string();
    }
    let mut sanitized = String::new();
    let mut i: usize = 0;
    while i < chars.len()
        invariant
            i <= chars@.len(),
            sanitized@ == made_safe(chars@).take(i as int),
        decreases chars@.len() - i,
    {
        let c = chars[i];
        if ('a' <= c && c <= 'z') || ('A' <= c && c <= 'Z') || ('0' <= c && c <= '9') || c == '-'
            || c == '_' {
            sanitized.push(c);
        } else {
            sanitized.push('_');
        }
        i = i + 1;
        assert(sanitized@ =~= made_safe(chars@).take(i as int));
    }
    assert(made_safe(chars@).take(i as int) =~= made_safe(chars@));
    sanitized
}

/// The name of a socket is never empty, holds only safe characters, and is the
/// name of its own socket.
pub proof fn law_socket_names_are_safe(session: Seq<char>)
    ensures
        socket_name(session).len() > 0,
        forall|i: int|
            0 <= i < socket_name(session).len() ==> is_safe(#[trigger] socket_name(session)[i]),
        socket_name(socket_name(session)) == socket_name(session),
{
    reveal_strlit("default");
    assert(socket_name(socket_name(session)) =~= socket_name(session));
}

/// The directory of a user's sockets.
pub open spec fn user_dir(user: Option<&str>) -> Seq<char> {
    "/tmp/rmux-"@ + match user {
        Some(user) => user@,
        None => "unknown"@,
    }
}

pub fn socket_dir(user: Option<&str>) -> (result: String)
    ensures
        result@ == user_dir(user),
{
    match user {
        Some(user) => "/tmp/rmux-".to_string().concat(user),
        None => "/tmp/rmux-".to_string().concat("unknown"),
    }
}

/// A file in a directory; a directory that ends in `/` gets no second one.
pub open spec fn file_in(dir: Seq<char>, file: Seq<char>) -> Seq<char> {
    if dir.len() > 0 && dir.last() == '/' {
        dir + file
    } else {
        dir + "/"@ + file
    }
}

/// The file of a session's socket.
pub open spec fn socket_file(session: Seq<char>) -> Seq<char> {
    socket_name(session) + ".sock"@
}

/// Where the socket of a session is.
pub fn socket_path(user: Option<&str>, session: &str) -> (result: String)
    ensures
        result@ == file_in(user_dir(user), socket_file(session@)),
{
    let dir = socket_dir(user);
    let chars = chars_of(dir.as_str());
    let file = sanitized_session_name(session).concat(".sock");
    if chars.len() > 0 && chars[chars.len() - 1] == '/' {
        dir.concat(file.as_str())
    } else {
        dir.concat("/").concat(file.as_str())
    }
}

/// The session whose socket a file is, where it is one.
pub open spec fn session_of(file: Seq<char>) -> Option<Seq<char>> {
    let stem = file.len() - 5;
    if stem > 0 && file.skip(stem) == ".sock"@ {
        Some(file.take(stem))
    } else {
        None
    }
}

pub fn session_of_socket(file: &str) -> (result: Option<String>)
    ensures
        crate::session::optional_text(result) == session_of(file@),
{
    proof {
        reveal_strlit(".sock");
    }
    let chars = chars_of(file);
    if chars.len() <= 5 {
        return None;
    }
    let stem: usize = chars.len() - 5;
    assert(file@.skip(stem as int).len() == 5);
    if chars[stem] == '.' && chars[stem + 1] == 's' && chars[stem + 2] == 'o' && chars[stem + 3]
        == 'c' && chars[stem + 4] == 'k' {
        assert(file@.skip(stem as int) =~= ".sock"@);
        assert(file@.take(stem as int) =~= file@.subrange(0, stem as int));
        Some(string_between(&chars, 0, stem))
    } else {
        proof {
            let suffix = file@.skip(stem as int);
            if suffix == ".sock"@ {
                assert(suffix[0] == '.' && suffix[1] == 's' && suffix[2] == 'o' && suffix[3]
                    == 'c' && suffix[4] == 'k');
            }
        }
        None
    }
}

/// The file of a session's socket is known for that session's.
pub proof fn law_socket_file_names_its_session(session: Seq<char>)
    ensures
        session_of(socket_file(session)) == Some(socket_name(session)),
{
    law_socket_names_are_safe(session);
    reveal_strlit(".sock");
    let file = socket_file(session);
    let stem = file.len() - 5;
    assert(file.skip(stem) =~= ".sock"@);
    assert(file.take(stem) =~= socket_name(session));
}

/// Whether one text sorts before another: by the first character in which they
/// differ, or by being the front of it.
pub open spec fn sorts_before(a: Seq<char>, b: Seq<char>) -> bool
    decreases a.len(),
{
    if b.len() == 0 {
        false
    } else if a.len() == 0 {
        true
    } else if a[0] != b[0] {
        a[0] < b[0]
    } else {
        sorts_before(a.skip(1), b.skip(1))
    }
}

fn text_sorts_before(a: &str, b: &str) -> (result: bool)
    ensures
        result == sorts_before(a@, b@),
{
    let left = chars_of(a);
    let right = chars_of(b);
    let mut i: usize = 0;
    assert(a@.skip(0) =~= a@ && b@.skip(0) =~= b@);
    while i < left.len() && i < right.len()
        invariant
            left@ == a@,
            right@ == b@,
            i <= left@.len(),
            i <= right@.len(),
            sorts_before(a@, b@) == sorts_before(a@.skip(i as int), b@.skip(i as int)),
        decreases left@.len() - i,
    {
        if left[i] != right[i] {
            return left[i] < right[i];
        }
        assert(a@.skip(i as int).skip(1) =~= a@.skip(i + 1));
        assert(b@.skip(i as int).skip(1) =~= b@.skip(i + 1));
        i = i + 1;
    }
    i < right.len()
}

/// Whether no text comes before one that it sorts after.
pub open spec fn in_text_order(names: Seq<Seq<char>>) -> bool {
    forall|i: int, j: int|
        #![trigger names[i], names[j]]
        0 <= i < j < names.len() ==> !sorts_before(names[j], names[i])
}

proof fn lemma_sorts_transitive(a: Seq<char>, b: Seq<char>, c: Seq<char>)
    requires
        !sorts_before(b, a),
        !sorts_before(c, b),
    ensures
        !sorts_before(c, a),
    decreases a.len(),
{
    if a.len() > 0 && b.len() > 0 && c.len() > 0 {
        if a[0] == b[0] && b[0] == c[0] {
            lemma_sorts_transitive(a.skip(1), b.skip(1), c.skip(1));
        }
    }
}

proof fn lemma_sorts_one_way(a: Seq<char>, b: Seq<char>)
    ensures
        !(sorts_before(a, b) && sorts_before(b, a)),
    decreases a.len(),
{
    if a.len() > 0 && b.len() > 0 && a[0] == b[0] {
        lemma_sorts_one_way(a.skip(1), b.skip(1));
    }
}

fn insert_name(names: &mut Vec<String>, name: String)
    requires
        in_text_order(texts(old(names)@)),
    ensures
        in_text_order(texts(final(names)@)),
        texts(final(names)@).to_multiset() == texts(old(names)@).to_multiset().insert(name@),
{
    broadcast use vstd::seq_lib::group_to_multiset_ensures;

    let ghost before = texts(names@);
    let ghost new = name@;
    let mut i: usize = 0;
    while i < names.len() && !text_sorts_before(name.as_str(), names[i].as_str())
        invariant
            i <= names@.len(),
            before == texts(names@),
            names@ == old(names)@,
            new == name@,
            in_text_order(before),
            forall|j: int| 0 <= j < i ==> !sorts_before(new, #[trigger] before[j]),
        decreases names@.len() - i,
    {
        assert(before[i as int] == names@[i as int]@);
        i = i + 1;
    }
    proof {
        if i < names.len() {
            assert(before[i as int] == names@[i as int]@);
            lemma_sorts_one_way(new, before[i as int]);
        }
    }
    names.insert(i, name);
    proof {
        let after = texts(names@);
        assert(after =~= before.insert(i as int, new));
        assert forall|a: int, b: int|
            #![trigger after[a], after[b]]
            0 <= a < b < after.len() implies !sorts_before(after[b], after[a]) by {
            if a < i && b > i {
                assert(after[a] == before[a] && after[b] == before[b - 1]);
            } else if b < i {
                assert(after[a] == before[a] && after[b] == before[b]);
            } else if b == i {
                assert(after[a] == before[a]);
            } else if a == i {
                assert(after[b] == before[b - 1]);
                if b - 1 > i {
                    assert(!sorts_before(before[b - 1], before[i as int]));
                    lemma_sorts_transitive(new, before[i as int], before[b - 1]);
                }
            } else {
                assert(after[a] == before[a - 1] && after[b] == before[b - 1]);
            }
        }
        vstd::seq_lib::to_multiset_insert(before, i as int, new);
    }
}

/// Names in order, every one of them.
pub fn sorted_names(names: Vec<String>) -> (result: Vec<String>)
    ensures
        in_text_order(texts(result@)),
        texts(result@).to_multiset() == texts(names@).to_multiset(),
{
    broadcast use vstd::seq_lib::group_to_multiset_ensures;

    let ghost all = texts(names@);
    let mut left = names;
    let mut sorted: Vec<String> = Vec::new();
    assert(texts(sorted@) =~= seq![]);
    while left.len() > 0
        invariant
            in_text_order(texts(sorted@)),
            texts(sorted@).to_multiset().add(texts(left@).to_multiset()) == all.to_multiset(),
        decreases left@.len(),
    {
        let ghost before = texts(left@);
        if let Some(name) = left.pop() {
            proof {
                assert(before =~= texts(left@).push(name@));
                texts(left@).to_multiset_ensures();
                assert(before.to_multiset() =~= texts(left@).to_multiset().insert(name@));
                assert(texts(sorted@).to_multiset().insert(name@).add(texts(left@).to_multiset())
                    =~= texts(sorted@).to_multiset().add(before.to_multiset()));
            }
            insert_name(&mut sorted, name);
        }
    }
    assert(texts(left@) =~= seq![]);
    assert(texts(sorted@).to_multiset().add(Seq::<Seq<char>>::empty().to_multiset())
        =~= texts(sorted@).to_multiset());
    sorted
}

/// Whether the directory of the sockets can be trusted: it has to be a directory
/// and not a link to one.
pub fn check_socket_dir(path: &str, is_dir: bool, is_symlink: bool) -> (result: Result<(), Error>)
    ensures
        match result {
            Ok(_) => is_dir && !is_symlink,
            Err(error) => {
                &&& !is_dir || is_symlink
                &&& error matches Error::InsecureSocketDir { path: named } && named@ == path@
            },
        },
{
    if !is_dir || is_symlink {
        return Err(Error::InsecureSocketDir { path: path.to_string() });
    }
    Ok(())
}

/// Whether a socket that is in the way has to be removed: where it is there and
/// no server answers on it. Where one does, the session is running already.
pub fn socket_is_stale(session: &str, exists: bool, answers: bool) -> (result: Result<bool, Error>)
    ensures
        match result {
            Ok(stale) => !(exists && answers) && stale == exists,
            Err(error) => {
                &&& exists && answers
                &&& error matches Error::SessionRunning { session: named } && named@ == session@
            },
        },
{
    if exists && answers {
        return Err(Error::SessionRunning { session: session.to_string() });
    }
    Ok(exists)
}

} // verus!
