//! The bytes that key names and texts stand for.

use vstd::prelude::*;
#[allow(unused_imports)]
use vstd::string::*;

use crate::error::Error;
#[allow(unused_imports)]
use crate::render::texts;
use crate::text::{chars_of, lower_string, same};

verus! {

/// The byte that control and a small letter, or control and `[`, send.
pub open spec fn control_key(ch: char) -> Option<u8> {
    if 'a' <= ch <= 'z' {
        Some((ch as u8 - 96) as u8)
    } else if ch == '[' {
        Some(0x1b)
    } else {
        None
    }
}

pub fn control_key_byte(ch: char) -> (result: Option<u8>)
    ensures
        result == control_key(ch),
{
    if 'a' <= ch && ch <= 'z' {
        Some(ch as u8 - 96)
    } else if ch == '[' {
        Some(0x1b)
    } else {
        None
    }
}

/// The bytes of a key that has a name of its own, in small letters.
pub open spec fn named_key(name: Seq<char>) -> Option<Seq<u8>> {
    if name == "enter"@ || name == "return"@ || name == "c-m"@ {
        Some(seq![0x0du8])
    } else if name == "c-j"@ {
        Some(seq![0x0au8])
    } else if name == "space"@ {
        Some(seq![0x20u8])
    } else if name == "tab"@ || name == "c-i"@ {
        Some(seq![0x09u8])
    } else if name == "escape"@ || name == "esc"@ || name == "c-["@ {
        Some(seq![0x1bu8])
    } else if name == "backspace"@ || name == "bs"@ {
        Some(seq![0x7fu8])
    } else if name == "up"@ {
        Some(seq![0x1bu8, 0x5b, 0x41])
    } else if name == "down"@ {
        Some(seq![0x1bu8, 0x5b, 0x42])
    } else if name == "right"@ {
        Some(seq![0x1bu8, 0x5b, 0x43])
    } else if name == "left"@ {
        Some(seq![0x1bu8, 0x5b, 0x44])
    } else if name == "home"@ {
        Some(seq![0x1bu8, 0x5b, 0x48])
    } else if name == "end"@ {
        Some(seq![0x1bu8, 0x5b, 0x46])
    } else if name == "delete"@ || name == "dc"@ {
        Some(seq![0x1bu8, 0x5b, 0x33, 0x7e])
    } else {
        None
    }
}

/// Whether a name reads `c-` and one more character, which takes one byte.
pub open spec fn is_control_name(name: Seq<char>) -> bool {
    name.len() == 3 && name[0] == 'c' && name[1] == '-' && name[2] as u32 <= 0x7f
}

/// The bytes that a key name stands for; capitals do not matter. Anything that
/// names no key stands for itself. `None` for control and a key that sends
/// nothing with it.
pub open spec fn token_bytes(key: Seq<char>) -> Option<Seq<u8>> {
    let name = crate::text::lowered(key);
    match named_key(name) {
        Some(bytes) => Some(bytes),
        None => if is_control_name(name) {
            match control_key(name[2]) {
                Some(byte) => Some(seq![byte]),
                None => None,
            }
        } else {
            Some(vstd::utf8::encode_utf8(key))
        },
    }
}

fn find_named_key(name: &str) -> (result: Option<Vec<u8>>)
    ensures
        match result {
            Some(bytes) => named_key(name@) == Some(bytes@),
            None => named_key(name@) is None,
        },
{
    let bytes: Vec<u8> = if same(name, "enter") || same(name, "return") || same(name, "c-m") {
        vec![0x0d]
    } else if same(name, "c-j") {
        vec![0x0a]
    } else if same(name, "space") {
        vec![0x20]
    } else if same(name, "tab") || same(name, "c-i") {
        vec![0x09]
    } else if same(name, "escape") || same(name, "esc") || same(name, "c-[") {
        vec![0x1b]
    } else if same(name, "backspace") || same(name, "bs") {
        vec![0x7f]
    } else if same(name, "up") {
        vec![0x1b, 0x5b, 0x41]
    } else if same(name, "down") {
        vec![0x1b, 0x5b, 0x42]
    } else if same(name, "right") {
        vec![0x1b, 0x5b, 0x43]
    } else if same(name, "left") {
        vec![0x1b, 0x5b, 0x44]
    } else if same(name, "home") {
        vec![0x1b, 0x5b, 0x48]
    } else if same(name, "end") {
        vec![0x1b, 0x5b, 0x46]
    } else if same(name, "delete") || same(name, "dc") {
        vec![0x1b, 0x5b, 0x33, 0x7e]
    } else {
        return None;
    };
    assert(bytes@ =~= named_key(name@)->0);
    Some(bytes)
}

pub fn encode_key_token(key: &str) -> (result: Result<Vec<u8>, Error>)
    ensures
        match token_bytes(key@) {
            Some(bytes) => result matches Ok(own) && own@ == bytes,
            None => result matches Err(Error::UnsupportedControlToken { key: asked }) && asked@
                == key@,
        },
{
    let name = lower_string(key);
    if let Some(bytes) = find_named_key(name.as_str()) {
        return Ok(bytes);
    }
    let chars = chars_of(name.as_str());
    if chars.len() == 3 && chars[0] == 'c' && chars[1] == '-' && chars[2] as u32 <= 0x7f {
        return match control_key_byte(chars[2]) {
            Some(byte) => {
                let bytes = vec![byte];
                assert(bytes@ =~= seq![byte]);
                Ok(bytes)
            },
            None => Err(Error::UnsupportedControlToken { key: key.to_string() }),
        };
    }
    Ok(key.as_bytes_vec())
}

/// The bytes of some key names one after another, up to the first that cannot
/// be sent.
pub open spec fn tokens_bytes(keys: Seq<Seq<char>>) -> Result<Seq<u8>, Seq<char>>
    decreases keys.len(),
{
    if keys.len() == 0 {
        Ok(seq![])
    } else {
        match tokens_bytes(keys.drop_last()) {
            Ok(before) => match token_bytes(keys.last()) {
                Some(bytes) => Ok(before + bytes),
                None => Err(keys.last()),
            },
            Err(key) => Err(key),
        }
    }
}

proof fn lemma_first_bad_token(keys: Seq<Seq<char>>, i: int)
    requires
        0 <= i <= keys.len(),
        tokens_bytes(keys.take(i)) is Err,
    ensures
        tokens_bytes(keys) == tokens_bytes(keys.take(i)),
    decreases keys.len(),
{
    if i == keys.len() {
        assert(keys.take(i) =~= keys);
    } else {
        assert(keys.drop_last().take(i) =~= keys.take(i));
        lemma_first_bad_token(keys.drop_last(), i);
    }
}

pub fn encode_key_tokens(keys: &[String]) -> (result: Result<Vec<u8>, Error>)
    ensures
        match tokens_bytes(texts(keys@)) {
            Ok(bytes) => result matches Ok(own) && own@ == bytes,
            Err(key) => result matches Err(Error::UnsupportedControlToken { key: asked }) && asked@
                == key,
        },
{
    let ghost names = texts(keys@);
    let mut bytes: Vec<u8> = Vec::new();
    let mut i: usize = 0;
    assert(names.take(0) =~= seq![]);
    assert(bytes@ =~= seq![]);
    while i < keys.len()
        invariant
            i <= keys@.len(),
            names == texts(keys@),
            tokens_bytes(names.take(i as int)) == Ok::<Seq<u8>, Seq<char>>(bytes@),
        decreases keys@.len() - i,
    {
        proof {
            assert(names.take(i + 1).drop_last() =~= names.take(i as int));
            assert(names.take(i + 1).last() == keys@[i as int]@);
        }
        match encode_key_token(keys[i].as_str()) {
            Ok(mut own) => {
                bytes.append(&mut own);
            },
            Err(error) => {
                proof {
                    lemma_first_bad_token(names, i + 1);
                }
                return Err(error);
            },
        }
        i = i + 1;
    }
    assert(names.take(i as int) =~= names);
    Ok(bytes)
}

/// Texts one after another.
pub open spec fn joined(all: Seq<Seq<char>>) -> Seq<char>
    decreases all.len(),
{
    if all.len() == 0 {
        seq![]
    } else {
        joined(all.drop_last()) + all.last()
    }
}

/// The bytes that are sent for some keys: of the texts themselves where they
/// are literal, and else of the keys that they name.
pub fn encode_send_keys(keys: &[String], literal: bool) -> (result: Result<Vec<u8>, Error>)
    ensures
        if literal {
            result matches Ok(bytes) && bytes@ == vstd::utf8::encode_utf8(joined(texts(keys@)))
        } else {
            match tokens_bytes(texts(keys@)) {
                Ok(bytes) => result matches Ok(own) && own@ == bytes,
                Err(key) => result matches Err(Error::UnsupportedControlToken { key: asked })
                    && asked@ == key,
            }
        },
{
    if !literal {
        return encode_key_tokens(keys);
    }
    let ghost names = texts(keys@);
    let mut all = String::new();
    let mut i: usize = 0;
    assert(names.take(0) =~= seq![]);
    assert(all@ =~= seq![]);
    while i < keys.len()
        invariant
            i <= keys@.len(),
            names == texts(keys@),
            all@ == joined(names.take(i as int)),
        decreases keys@.len() - i,
    {
        assert(names.take(i + 1).drop_last() =~= names.take(i as int));
        assert(names.take(i + 1).last() == keys@[i as int]@);
        all = all.concat(keys[i].as_str());
        i = i + 1;
    }
    assert(names.take(i as int) =~= names);
    Ok(all.as_str().as_bytes_vec())
}

} // verus!
