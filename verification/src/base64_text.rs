//! Base64 text of binary attachments.

use vstd::prelude::*;

verus! {

/// The character of a six-bit group in the standard alphabet.
pub open spec fn sextet(n: int) -> char {
    if n < 26 {
        ((65 + n) as u8) as char
    } else if n < 52 {
        ((71 + n) as u8) as char
    } else if n < 62 {
        ((n - 4) as u8) as char
    } else if n == 62 {
        '+'
    } else {
        '/'
    }
}

/// The base64 text of bytes: standard alphabet, padded.
pub open spec fn base64_text(d: Seq<u8>) -> Seq<char>
    decreases d.len(),
{
    if d.len() == 0 {
        Seq::empty()
    } else if d.len() == 1 {
        seq![sextet(d[0] as int / 4), sextet(d[0] % 4 * 16), '=', '=']
    } else if d.len() == 2 {
        seq![sextet(d[0] as int / 4), sextet(d[0] % 4 * 16 + d[1] / 16), sextet(d[1] % 16 * 4), '=']
    } else {
        seq![
            sextet(d[0] as int / 4),
            sextet(d[0] % 4 * 16 + d[1] / 16),
            sextet(d[1] % 16 * 4 + d[2] / 64),
            sextet(d[2] as int % 64),
        ] + base64_text(d.skip(3))
    }
}

/// `base64::prelude::BASE64_STANDARD.encode`: the padded text in the standard
/// alphabet. The length of the text fits in a `usize`, as a vector holds at
/// most `isize::MAX` bytes.
#[verifier::external_body]
pub(crate) fn encode_base64(data: &Vec<u8>) -> (r: String)
    ensures
        r@ == base64_text(data@),
{
    base64::Engine::encode(&base64::prelude::BASE64_STANDARD, data)
}

} // verus!
