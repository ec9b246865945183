//! Data URLs that carry their payload in base64.
use vstd::prelude::*;
use base64::Engine;
use vstd::string::StringSliceAdditionalSpecFns;

verus! {

/// The character of the standard base64 alphabet for a six-bit value:
/// `A`-`Z`, `a`-`z`, `0`-`9`, `+` and `/`.
pub open spec fn base64_char(v: int) -> char {
    if v < 26 {
        (65 + v) as char
    } else if v < 52 {
        (97 + v - 26) as char
    } else if v < 62 {
        (48 + v - 52) as char
    } else if v == 62 {
        '+'
    } else {
        '/'
    }
}

/// The standard base64 encoding (RFC 4648 alphabet, with '=' padding) of
/// `bytes`: every three bytes become four characters of six bits each, and a
/// last group of one or two bytes is padded with '='.
pub open spec fn base64_standard(bytes: Seq<u8>) -> Seq<char>
    decreases bytes.len(),
{
    if bytes.len() == 0 {
        Seq::empty()
    } else if bytes.len() == 1 {
        seq![base64_char(bytes[0] as int / 4), base64_char((bytes[0] as int % 4) * 16), '=', '=']
    } else if bytes.len() == 2 {
        seq![
            base64_char(bytes[0] as int / 4),
            base64_char((bytes[0] as int % 4) * 16 + bytes[1] as int / 16),
            base64_char((bytes[1] as int % 16) * 4),
            '=',
        ]
    } else {
        seq![
            base64_char(bytes[0] as int / 4),
            base64_char((bytes[0] as int % 4) * 16 + bytes[1] as int / 16),
            base64_char((bytes[1] as int % 16) * 4 + bytes[2] as int / 64),
            base64_char(bytes[2] as int % 64),
        ] + base64_standard(bytes.subrange(3, bytes.len() as int))
    }
}

/// The number of characters that standard padded base64 makes of `n` bytes.
pub open spec fn base64_len(n: nat) -> nat {
    4 * ((n + 2) / 3)
}

/// Encodes `bytes` with `base64::engine::general_purpose::STANDARD`
/// (`Engine::encode`). The contract claims that the result is the standard
/// padded encoding of the bytes, four characters for every started group of
/// three bytes; the crate panics when that length does not fit in `usize`,
/// which `requires` rules out.
#[verifier::external_body]
fn encode_base64(bytes: &[u8]) -> (encoded: String)
    requires
        base64_len(bytes@.len()) <= usize::MAX,
    ensures
        encoded@ == base64_standard(bytes@),
        encoded@.len() == base64_len(bytes@.len()),
{
    base64::engine::general_purpose::STANDARD.encode(bytes)
}

/// An SVG document as a `data:` URL, its UTF-8 bytes in base64.
pub fn create_svg_url(svg: &str) -> (url: String)
    requires
        base64_len(svg.spec_bytes().len()) <= usize::MAX,
    ensures
        url@ == "data:image/svg+xml;base64,"@ + base64_standard(svg.spec_bytes()),
{
    let encoded = encode_base64(svg.as_bytes());
    let mut url = "data:image/svg+xml;base64,".to_string();
    url.append(encoded.as_str());
    url
}

/// A PNG image as a `data:` URL.
pub fn review_data_url(bytes: &[u8]) -> (url: String)
    requires
        base64_len(bytes@.len()) <= usize::MAX,
    ensures
        url@ == "data:image/png;base64,"@ + base64_standard(bytes@),
{
    let encoded = encode_base64(bytes);
    let mut url = "data:image/png;base64,".to_string();
    url.append(encoded.as_str());
    url
}

} // verus!
