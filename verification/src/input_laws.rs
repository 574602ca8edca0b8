//! What goes into terminals: named keys send what the keys themselves send, texts go as
//! they are, and pastes are marked for the programs that ask for it.

use vstd::prelude::*;
#[allow(unused_imports)]
use vstd::string::*;

#[allow(unused_imports)]
use crate::keys::{key_bytes, KeyCode, KeyEvent, KeyModifiers};
#[allow(unused_imports)]
use crate::paste::{holds_marker, stripped};
#[allow(unused_imports)]
use crate::protocol::{
    modifier_bits, modifiers_from_bits, MouseEvent, WireKey, WireKeyCode, WireMouse,
};
#[allow(unused_imports)]
use crate::send_keys::{joined, token_bytes, tokens_bytes};
#[allow(unused_imports)]
use crate::state::RmuxState;
#[allow(unused_imports)]
use crate::text::{lower, lowered};

verus! {

/// What a key sends without modifiers.
pub open spec fn sent_by(code: KeyCode) -> Seq<u8> {
    key_bytes(
        KeyEvent {
            code,
            modifiers: KeyModifiers {
                shift: false,
                control: false,
                alt: false,
                super_key: false,
                hyper: false,
                meta: false,
            },
        },
    )
}

/// A key that is named sends what the key itself sends, whatever letters of the name are
/// capitals; the blank has a name too.
pub proof fn law_named_keys_send_what_keys_send(name: Seq<char>)
    ensures
        lowered(name) == "enter"@ || lowered(name) == "return"@ ==> token_bytes(name) == Some(
            sent_by(KeyCode::Enter),
        ),
        lowered(name) == "tab"@ ==> token_bytes(name) == Some(sent_by(KeyCode::Tab)),
        lowered(name) == "escape"@ || lowered(name) == "esc"@ ==> token_bytes(name) == Some(
            sent_by(KeyCode::Esc),
        ),
        lowered(name) == "backspace"@ || lowered(name) == "bs"@ ==> token_bytes(name) == Some(
            sent_by(KeyCode::Backspace),
        ),
        lowered(name) == "space"@ ==> token_bytes(name) == Some(seq![' ' as u8]),
{
    lemma_names();
    assert(seq![0x20u8] =~= seq![' ' as u8]);
}

/// The arrows and the other keys of their pad send by name what they send themselves.
pub proof fn law_named_arrows_send_what_arrows_send(name: Seq<char>)
    ensures
        lowered(name) == "up"@ ==> token_bytes(name) == Some(sent_by(KeyCode::Up)),
        lowered(name) == "down"@ ==> token_bytes(name) == Some(sent_by(KeyCode::Down)),
        lowered(name) == "right"@ ==> token_bytes(name) == Some(sent_by(KeyCode::Right)),
        lowered(name) == "left"@ ==> token_bytes(name) == Some(sent_by(KeyCode::Left)),
        lowered(name) == "home"@ ==> token_bytes(name) == Some(sent_by(KeyCode::Home)),
        lowered(name) == "end"@ ==> token_bytes(name) == Some(sent_by(KeyCode::End)),
        lowered(name) == "delete"@ || lowered(name) == "dc"@ ==> token_bytes(name) == Some(
            sent_by(KeyCode::Delete),
        ),
{
    lemma_names();
}

proof fn lemma_names()
    ensures
        "enter"@ == seq!['e', 'n', 't', 'e', 'r'],
        "return"@ == seq!['r', 'e', 't', 'u', 'r', 'n'],
        "c-m"@ == seq!['c', '-', 'm'],
        "c-j"@ == seq!['c', '-', 'j'],
        "space"@ == seq!['s', 'p', 'a', 'c', 'e'],
        "tab"@ == seq!['t', 'a', 'b'],
        "c-i"@ == seq!['c', '-', 'i'],
        "escape"@ == seq!['e', 's', 'c', 'a', 'p', 'e'],
        "esc"@ == seq!['e', 's', 'c'],
        "c-["@ == seq!['c', '-', '['],
        "backspace"@ == seq!['b', 'a', 'c', 'k', 's', 'p', 'a', 'c', 'e'],
        "bs"@ == seq!['b', 's'],
        "up"@ == seq!['u', 'p'],
        "down"@ == seq!['d', 'o', 'w', 'n'],
        "right"@ == seq!['r', 'i', 'g', 'h', 't'],
        "left"@ == seq!['l', 'e', 'f', 't'],
        "home"@ == seq!['h', 'o', 'm', 'e'],
        "end"@ == seq!['e', 'n', 'd'],
        "delete"@ == seq!['d', 'e', 'l', 'e', 't', 'e'],
        "dc"@ == seq!['d', 'c'],
{
    reveal_strlit("enter");
    reveal_strlit("return");
    reveal_strlit("c-m");
    reveal_strlit("c-j");
    reveal_strlit("space");
    reveal_strlit("tab");
    reveal_strlit("c-i");
    reveal_strlit("escape");
    reveal_strlit("esc");
    reveal_strlit("c-[");
    reveal_strlit("backspace");
    reveal_strlit("bs");
    reveal_strlit("up");
    reveal_strlit("down");
    reveal_strlit("right");
    reveal_strlit("left");
    reveal_strlit("home");
    reveal_strlit("end");
    reveal_strlit("delete");
    reveal_strlit("dc");
    assert("enter"@ =~= seq!['e', 'n', 't', 'e', 'r']);
    assert("return"@ =~= seq!['r', 'e', 't', 'u', 'r', 'n']);
    assert("c-m"@ =~= seq!['c', '-', 'm']);
    assert("c-j"@ =~= seq!['c', '-', 'j']);
    assert("space"@ =~= seq!['s', 'p', 'a', 'c', 'e']);
    assert("tab"@ =~= seq!['t', 'a', 'b']);
    assert("c-i"@ =~= seq!['c', '-', 'i']);
    assert("escape"@ =~= seq!['e', 's', 'c', 'a', 'p', 'e']);
    assert("esc"@ =~= seq!['e', 's', 'c']);
    assert("c-["@ =~= seq!['c', '-', '[']);
    assert("backspace"@ =~= seq!['b', 'a', 'c', 'k', 's', 'p', 'a', 'c', 'e']);
    assert("bs"@ =~= seq!['b', 's']);
    assert("up"@ =~= seq!['u', 'p']);
    assert("down"@ =~= seq!['d', 'o', 'w', 'n']);
    assert("right"@ =~= seq!['r', 'i', 'g', 'h', 't']);
    assert("left"@ =~= seq!['l', 'e', 'f', 't']);
    assert("home"@ =~= seq!['h', 'o', 'm', 'e']);
    assert("end"@ =~= seq!['e', 'n', 'd']);
    assert("delete"@ =~= seq!['d', 'e', 'l', 'e', 't', 'e']);
    assert("dc"@ =~= seq!['d', 'c']);
}

/// `C-` and a letter, small or capital, send what control and the letter send.
pub proof fn law_named_control_keys_send_what_control_sends(name: Seq<char>, key: KeyEvent)
    requires
        name.len() == 3,
        name[0] == 'C' || name[0] == 'c',
        name[1] == '-',
        'a' <= name[2] <= 'z' || 'A' <= name[2] <= 'Z',
        key.code == KeyCode::Char(name[2]),
        key.modifiers.control,
    ensures
        token_bytes(name) == Some(key_bytes(key)),
{
    lemma_names();
    let low = lowered(name);
    let letter = lower(name[2]);
    assert(low =~= seq!['c', '-', letter]);
    assert('a' <= letter <= 'z');
    assert(low[2] == letter);
    if letter == 'm' {
        assert(low == "c-m"@);
    } else if letter == 'j' {
        assert(low == "c-j"@);
    } else if letter == 'i' {
        assert(low == "c-i"@);
    } else {
        assert(low != "c-m"@ && low != "c-j"@ && low != "c-i"@ && low != "c-["@) by {
            assert("c-m"@[2] == 'm' && "c-j"@[2] == 'j' && "c-i"@[2] == 'i' && "c-["@[2] == '[');
        }
        assert("tab"@[0] == 't' && "esc"@[0] == 'e' && "end"@[0] == 'e');
        assert(low[0] == 'c');
        assert("enter"@.len() == 5 && "return"@.len() == 6 && "space"@.len() == 5);
        assert(crate::send_keys::named_key(low) is None);
    }
}

/// Keys that are sent together send what they send one after the other.
pub proof fn law_keys_are_sent_in_order(first: Seq<Seq<char>>, second: Seq<Seq<char>>)
    ensures
        tokens_bytes(first) is Ok && tokens_bytes(second) is Ok ==> tokens_bytes(first + second)
            == Ok::<Seq<u8>, Seq<char>>(tokens_bytes(first)->Ok_0 + tokens_bytes(second)->Ok_0),
        tokens_bytes(first) is Err ==> tokens_bytes(first + second) == tokens_bytes(first),
        first.len() == 1 ==> tokens_bytes(first) == match token_bytes(first[0]) {
            Some(bytes) => Ok::<Seq<u8>, Seq<char>>(bytes),
            None => Err(first[0]),
        },
        joined(first + second) == joined(first) + joined(second),
        first.len() == 1 ==> joined(first) == first[0],
    decreases second.len(),
{
    if first.len() == 1 {
        assert(first.drop_last() =~= seq![]);
        assert(tokens_bytes(first.drop_last()) == Ok::<Seq<u8>, Seq<char>>(seq![]));
        assert(joined(first.drop_last()) =~= seq![]);
        assert(joined(first) =~= first[0]);
        if let Some(bytes) = token_bytes(first[0]) {
            assert(Seq::<u8>::empty() + bytes =~= bytes);
        }
    }
    if second.len() == 0 {
        assert(first + second =~= first);
        assert(joined(first) + joined(second) =~= joined(first));
        if tokens_bytes(first) is Ok {
            assert(tokens_bytes(first)->Ok_0 + tokens_bytes(second)->Ok_0
                =~= tokens_bytes(first)->Ok_0);
        }
    } else {
        let rest = second.drop_last();
        law_keys_are_sent_in_order(first, rest);
        assert((first + second).drop_last() =~= first + rest);
        assert((first + second).last() == second.last());
        assert(joined(first + second) =~= joined(first) + joined(second));
        if tokens_bytes(first) is Ok && tokens_bytes(second) is Ok {
            assert(tokens_bytes(rest) is Ok);
            let bytes = token_bytes(second.last())->0;
            assert(tokens_bytes(first)->Ok_0 + (tokens_bytes(rest)->Ok_0 + bytes)
                =~= tokens_bytes(first)->Ok_0 + tokens_bytes(rest)->Ok_0 + bytes);
        }
    }
}

/// A word that names no key, and is not `C-` and one character, is sent as it is.
pub proof fn law_other_words_are_sent_as_they_are(word: Seq<char>)
    requires
        word.len() > 9,
    ensures
        token_bytes(word) == Some(vstd::utf8::encode_utf8(word)),
{
    lemma_names();
    let low = lowered(word);
    assert(low.len() == word.len());
    assert(crate::send_keys::named_key(low) is None);
}

/// A paste goes to the panes that typing goes to, each once and in order: with a marker
/// before and behind it where the pane asked for that, and as it is where it did not. An
/// empty paste goes nowhere.
pub proof fn law_paste_goes_where_typing_goes(
    state: RmuxState,
    bytes: Seq<u8>,
    bracketed: Seq<u64>,
    i: int,
)
    requires
        state.session.active < state.session.windows.len(),
    ensures
        ({
            let writes = state.pasted(bytes, bracketed);
            let panes = state.typed(bytes)->Input_panes;
            let start = seq![0x1bu8, '[' as u8, '2' as u8, '0' as u8, '0' as u8, '~' as u8];
            let end = seq![0x1bu8, '[' as u8, '2' as u8, '0' as u8, '1' as u8, '~' as u8];
            &&& bytes.len() == 0 ==> writes.len() == 0
            &&& bytes.len() > 0 ==> writes.len() == panes.len()
            &&& bytes.len() > 0 && 0 <= i < panes.len() ==> {
                &&& writes[i].0 == panes[i]
                &&& !bracketed.contains(panes[i]) ==> writes[i].1 == bytes
                &&& bracketed.contains(panes[i]) && !holds_marker(bytes) ==> writes[i].1 == start
                    + bytes + end
                &&& bracketed.contains(panes[i]) ==> {
                    &&& writes[i].1.len() >= 12
                    &&& writes[i].1.take(6) == start
                    &&& writes[i].1.skip(writes[i].1.len() - 6) == end
                }
            }
        }),
{
    let start = seq![0x1bu8, '[' as u8, '2' as u8, '0' as u8, '0' as u8, '~' as u8];
    let end = seq![0x1bu8, '[' as u8, '2' as u8, '0' as u8, '1' as u8, '~' as u8];
    assert(start =~= crate::paste::paste_start());
    assert(end =~= crate::paste::paste_end());
    if !holds_marker(bytes) {
        crate::paste::law_stripping_keeps_clean_input(bytes);
    }
    let framed = start + stripped(bytes) + end;
    assert(framed.take(6) =~= start);
    assert(framed.skip(framed.len() - 6) =~= end);
}

/// A key travels under its own name, and a mouse event with its own place and kind.
pub proof fn law_events_travel_under_their_names(key: KeyEvent, mouse: MouseEvent)
    ensures
        ({
            let sent = <WireKey as vstd::std_specs::convert::FromSpec<KeyEvent>>::from_spec(key);
            match key.code {
                KeyCode::Char(ch) => sent.code == WireKeyCode::Char(ch),
                KeyCode::Enter => sent.code is Enter,
                KeyCode::Backspace => sent.code is Backspace,
                KeyCode::Tab => sent.code is Tab,
                KeyCode::Esc => sent.code is Esc,
                KeyCode::Up => sent.code is Up,
                KeyCode::Down => sent.code is Down,
                KeyCode::Right => sent.code is Right,
                KeyCode::Left => sent.code is Left,
                KeyCode::Home => sent.code is Home,
                KeyCode::End => sent.code is End,
                KeyCode::Delete => sent.code is Delete,
                KeyCode::Other => sent.code is Unsupported,
            }
        }),
        ({
            let sent = <WireMouse as vstd::std_specs::convert::FromSpec<MouseEvent>>::from_spec(
                mouse,
            );
            &&& sent.col == mouse.column
            &&& sent.row == mouse.row
            &&& sent.kind == mouse.kind
            &&& !mouse.modifiers.hyper && !mouse.modifiers.meta ==> modifiers_from_bits(
                sent.modifiers,
            ) == mouse.modifiers
        }),
{
    let as_key = KeyEvent { code: KeyCode::Enter, modifiers: mouse.modifiers };
    if !mouse.modifiers.hyper && !mouse.modifiers.meta {
        crate::protocol::law_key_arrives_as_sent(as_key);
    }
}

/// The bits of the modifiers are one for shift, two for control, four for alt and eight for
/// super.
pub proof fn law_modifier_bits(modifiers: KeyModifiers)
    ensures
        modifier_bits(modifiers) == (if modifiers.shift {
            1int
        } else {
            0
        }) + (if modifiers.control {
            2int
        } else {
            0
        }) + (if modifiers.alt {
            4int
        } else {
            0
        }) + (if modifiers.super_key {
            8int
        } else {
            0
        }),
{
}

/// A marker inside a paste does not reach a pane that asked for markers: what stood before
/// and behind it is written as one paste.
pub proof fn law_markers_in_paste_are_left_out(
    state: RmuxState,
    before: Seq<u8>,
    after: Seq<u8>,
    marker: Seq<u8>,
    bracketed: Seq<u64>,
    i: int,
)
    requires
        state.session.active < state.session.windows.len(),
        !holds_marker(before),
        !holds_marker(after),
        marker == seq![0x1bu8, '[' as u8, '2' as u8, '0' as u8, '0' as u8, '~' as u8] || marker
            == seq![0x1bu8, '[' as u8, '2' as u8, '0' as u8, '1' as u8, '~' as u8],
        0 <= i < (state.typed(before)->Input_panes).len(),
        bracketed.contains((state.typed(before)->Input_panes)[i]),
    ensures
        ({
            let start = seq![0x1bu8, '[' as u8, '2' as u8, '0' as u8, '0' as u8, '~' as u8];
            let end = seq![0x1bu8, '[' as u8, '2' as u8, '0' as u8, '1' as u8, '~' as u8];
            state.pasted(before + marker + after, bracketed)[i].1 == start + before + after + end
        }),
{
    let start = seq![0x1bu8, '[' as u8, '2' as u8, '0' as u8, '0' as u8, '~' as u8];
    let end = seq![0x1bu8, '[' as u8, '2' as u8, '0' as u8, '1' as u8, '~' as u8];
    assert(start =~= crate::paste::paste_start());
    assert(end =~= crate::paste::paste_end());
    crate::paste::law_embedded_marker_is_taken_out(before, marker, after);
    crate::paste::law_stripping_keeps_clean_input(after);
    assert(start + (before + after) + end =~= start + before + after + end);
}

} // verus!
