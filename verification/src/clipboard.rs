//! Putting text on the clipboard of the terminal that the client runs in.

use base64::engine::general_purpose::STANDARD;
use base64::Engine;
use vstd::prelude::*;
#[allow(unused_imports)]
use vstd::string::*;

verus! {

/// The character that stands for six bits in the standard alphabet of base64.
pub open spec fn base64_char(bits: int) -> char {
    if bits < 26 {
        (65 + bits) as char
    } else if bits < 52 {
        (71 + bits) as char
    } else if bits < 62 {
        (bits - 4) as char
    } else if bits == 62 {
        '+'
    } else {
        '/'
    }
}

/// Bytes in base64: four characters for every three bytes, with `=` for what
/// the last bytes do not fill.
pub open spec fn base64_text(bytes: Seq<u8>) -> Seq<char>
    decreases bytes.len(),
{
    if bytes.len() == 0 {
        seq![]
    } else if bytes.len() == 1 {
        seq![base64_char(bytes[0] as int / 4), base64_char(bytes[0] as int % 4 * 16), '=', '=']
    } else if bytes.len() == 2 {
        seq![
            base64_char(bytes[0] as int / 4),
            base64_char(bytes[0] as int % 4 * 16 + bytes[1] as int / 16),
            base64_char(bytes[1] as int % 16 * 4),
            '=',
        ]
    } else {
        seq![
            base64_char(bytes[0] as int / 4),
            base64_char(bytes[0] as int % 4 * 16 + bytes[1] as int / 16),
            base64_char(bytes[1] as int % 16 * 4 + bytes[2] as int / 64),
            base64_char(bytes[2] as int % 64),
        ] + base64_text(bytes.skip(3))
    }
}

/// Whether bytes are few enough for their base64 to be held in memory.
pub open spec fn encodable(bytes: Seq<u8>) -> bool {
    (bytes.len() + 2) / 3 * 4 <= isize::MAX
}

/// Calls `Engine::encode` of `base64` with the engine `STANDARD`: the standard
/// alphabet, padded. It panics where the result could not be held in memory.
#[verifier::external_body]
fn encode_base64(bytes: &[u8]) -> (result: String)
    requires
        encodable(bytes@),
    ensures
        result@ == base64_text(bytes@),
{
    STANDARD.encode(bytes)
}

/// The escape sequence that puts a text on the clipboard.
pub open spec fn clipboard_sequence(text: Seq<char>) -> Seq<char> {
    "\x1b]52;c;"@ + base64_text(vstd::utf8::encode_utf8(text)) + "\x07"@
}

/// The escape sequence that has a terminal put a text on its clipboard.
pub fn osc52_clipboard_sequence(text: &str) -> (result: String)
    requires
        encodable(vstd::utf8::encode_utf8(text@)),
    ensures
        result@ == clipboard_sequence(text@),
{
    "\x1b]52;c;".to_string().concat(encode_base64(text.as_bytes()).as_str()).concat("\x07")
}

} // verus!
