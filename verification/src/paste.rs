//! Pasted text on its way to a program that may have asked for bracketed paste.

use vstd::prelude::*;

verus! {

/// What a terminal puts before pasted text.
pub open spec fn paste_start() -> Seq<u8> {
    seq![0x1bu8, 0x5b, 0x32, 0x30, 0x30, 0x7e]
}

/// What a terminal puts after pasted text.
pub open spec fn paste_end() -> Seq<u8> {
    seq![0x1bu8, 0x5b, 0x32, 0x30, 0x31, 0x7e]
}

/// Whether one of the two markers begins at position `i`.
pub open spec fn marker_at(s: Seq<u8>, i: int) -> bool {
    &&& 0 <= i
    &&& i + 6 <= s.len()
    &&& s.subrange(i, i + 6) == paste_start() || s.subrange(i, i + 6) == paste_end()
}

pub open spec fn holds_marker(s: Seq<u8>) -> bool {
    exists|i: int| marker_at(s, i)
}

/// The input without the markers that are met when it is read from the front.
pub open spec fn stripped(s: Seq<u8>) -> Seq<u8>
    decreases s.len(),
{
    if s.len() == 0 {
        s
    } else if marker_at(s, 0) {
        stripped(s.skip(6))
    } else {
        seq![s[0]] + stripped(s.skip(1))
    }
}

fn is_marker(input: &[u8], i: usize) -> (result: bool)
    requires
        i < input@.len(),
    ensures
        result == marker_at(input@, i as int),
{
    if input.len() - i < 6 {
        return false;
    }
    let ghost part = input@.subrange(i as int, i + 6);
    assert(part[0] == input@[i as int] && part[1] == input@[i + 1] && part[2] == input@[i + 2]
        && part[3] == input@[i + 3] && part[4] == input@[i + 4] && part[5] == input@[i + 5]);
    let found = input[i] == 0x1b && input[i + 1] == 0x5b && input[i + 2] == 0x32 && input[i + 3]
        == 0x30 && (input[i + 4] == 0x30 || input[i + 4] == 0x31) && input[i + 5] == 0x7e;
    proof {
        if found {
            if part[4] == 0x30 {
                assert(part =~= paste_start());
            } else {
                assert(part =~= paste_end());
            }
        }
    }
    found
}

/// The input without its markers, where it holds any.
pub fn sanitize_bracketed_paste_input(input: &[u8]) -> (result: Option<Vec<u8>>)
    ensures
        match result {
            Some(bytes) => holds_marker(input@) && bytes@ == stripped(input@),
            None => !holds_marker(input@),
        },
{
    let mut kept: Vec<u8> = Vec::new();
    let mut found = false;
    let mut i: usize = 0;
    assert(input@.skip(0) == input@);
    while i < input.len()
        invariant
            i <= input@.len(),
            stripped(input@) == kept@ + stripped(input@.skip(i as int)),
            found ==> holds_marker(input@),
            !found ==> forall|k: int| 0 <= k < i ==> !marker_at(input@, k),
        decreases input@.len() - i,
    {
        let ghost rest = input@.skip(i as int);
        proof {
            if i + 6 <= input@.len() {
                assert(rest.subrange(0, 6) == input@.subrange(i as int, i + 6));
                assert(rest.skip(6) == input@.skip(i + 6));
            }
            assert(rest.skip(1) == input@.skip(i + 1));
        }
        if is_marker(input, i) {
            found = true;
            i = i + 6;
        } else {
            kept.push(input[i]);
            i = i + 1;
        }
        assert(stripped(input@) =~= kept@ + stripped(input@.skip(i as int)));
    }
    if found {
        assert(stripped(input@) =~= kept@);
        Some(kept)
    } else {
        None
    }
}

/// Pasted input between its markers, without any marker inside it.
pub fn framed_bracketed_paste_input(input: &[u8]) -> (result: Vec<u8>)
    ensures
        result@ == paste_start() + stripped(input@) + paste_end(),
{
    let payload = match sanitize_bracketed_paste_input(input) {
        Some(bytes) => bytes,
        None => {
            proof {
                law_stripping_keeps_clean_input(input@);
            }
            vstd::slice::slice_to_vec(input)
        },
    };
    let mut framed: Vec<u8> = vec![0x1b, 0x5b, 0x32, 0x30, 0x30, 0x7e];
    assert(framed@ =~= paste_start());
    let mut payload = payload;
    framed.append(&mut payload);
    let mut end: Vec<u8> = vec![0x1b, 0x5b, 0x32, 0x30, 0x31, 0x7e];
    assert(end@ =~= paste_end());
    framed.append(&mut end);
    framed
}

/// What a pane writes for a paste: nothing for an empty one, the framed input
/// where the program asked for bracketed paste, and else the input as it is.
pub open spec fn paste_bytes(input: Seq<u8>, bracketed: bool) -> Option<Seq<u8>> {
    if input.len() == 0 {
        None
    } else if bracketed {
        Some(paste_start() + stripped(input) + paste_end())
    } else {
        Some(input)
    }
}

pub fn paste_input(input: &[u8], bracketed: bool) -> (result: Option<Vec<u8>>)
    ensures
        match result {
            Some(bytes) => paste_bytes(input@, bracketed) == Some(bytes@),
            None => paste_bytes(input@, bracketed) is None,
        },
{
    if input.len() == 0 {
        return None;
    }
    if bracketed {
        Some(framed_bracketed_paste_input(input))
    } else {
        Some(vstd::slice::slice_to_vec(input))
    }
}

/// Input that holds no marker is not changed.
pub proof fn law_stripping_keeps_clean_input(input: Seq<u8>)
    requires
        !holds_marker(input),
    ensures
        stripped(input) == input,
    decreases input.len(),
{
    if input.len() > 0 {
        let rest = input.skip(1);
        assert(!holds_marker(rest)) by {
            if holds_marker(rest) {
                let i = choose|i: int| marker_at(rest, i);
                assert(rest.subrange(i, i + 6) == input.subrange(i + 1, i + 7));
                assert(marker_at(input, i + 1));
            }
        }
        law_stripping_keeps_clean_input(rest);
        assert(!marker_at(input, 0));
        assert(input =~= seq![input[0]] + rest);
    }
}

/// A marker inside a paste is taken out, and what stands on its two sides is
/// kept: the clean input before it as it is, and the rest stripped in turn.
pub proof fn law_embedded_marker_is_taken_out(before: Seq<u8>, marker: Seq<u8>, after: Seq<u8>)
    requires
        !holds_marker(before),
        marker == paste_start() || marker == paste_end(),
    ensures
        stripped(before + marker + after) == before + stripped(after),
    decreases before.len(),
{
    let whole = before + marker + after;
    if before.len() == 0 {
        assert(whole.subrange(0, 6) =~= marker);
        assert(whole.skip(6) =~= after);
        assert(before + stripped(after) =~= stripped(after));
    } else {
        let rest = before.skip(1);
        assert(!holds_marker(rest)) by {
            if holds_marker(rest) {
                let i = choose|i: int| marker_at(rest, i);
                assert(rest.subrange(i, i + 6) == before.subrange(i + 1, i + 7));
                assert(marker_at(before, i + 1));
            }
        }
        assert(!marker_at(whole, 0)) by {
            if marker_at(whole, 0) {
                if before.len() >= 6 {
                    assert(before.subrange(0, 6) =~= whole.subrange(0, 6));
                    assert(marker_at(before, 0));
                } else {
                    let at = before.len() as int;
                    assert(whole[at] == marker[0]);
                    assert(whole.subrange(0, 6)[at] == 0x1b);
                }
            }
        }
        assert(whole.skip(1) =~= rest + marker + after);
        law_embedded_marker_is_taken_out(rest, marker, after);
        assert(seq![before[0]] + (rest + stripped(after)) =~= before + stripped(after));
    }
}

} // verus!
