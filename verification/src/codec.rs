//! The encodings the dock takes from outside crates: SHA-256 (`sha2`),
//! Base64 (`base64`) and JSON string literals (`serde_json`).
use vstd::prelude::*;

use base64::engine::general_purpose;
use base64::Engine;
use sha2::{Digest, Sha256};

verus! {

/// The SHA-256 digest of `data`.
pub uninterp spec fn sha256_digest(data: Seq<u8>) -> Seq<u8>;

/// The character that the 6-bit value `v` stands for in Base64 (RFC 4648):
/// `A`-`Z`, `a`-`z`, `0`-`9`, then `+` and `/` in the standard alphabet and
/// `-` and `_` in the URL-safe one.
pub open spec fn base64_digit(v: int, url_safe: bool) -> char {
    if v < 26 {
        (65 + v) as char
    } else if v < 52 {
        (97 + (v - 26)) as char
    } else if v < 62 {
        (48 + (v - 52)) as char
    } else if v == 62 {
        if url_safe {
            '-'
        } else {
            '+'
        }
    } else {
        if url_safe {
            '_'
        } else {
            '/'
        }
    }
}

/// The Base64 text of `bytes` (RFC 4648): every three bytes become four
/// characters of six bits each, most significant first; a last one or two
/// bytes become two or three characters, the missing bits being zero, then,
/// when `pad`, `=` up to four.
pub open spec fn base64_text(bytes: Seq<u8>, url_safe: bool, pad: bool) -> Seq<char>
    decreases bytes.len(),
{
    if bytes.len() == 0 {
        Seq::empty()
    } else if bytes.len() == 1 {
        let b0 = bytes[0] as int;
        seq![base64_digit(b0 / 4, url_safe), base64_digit((b0 % 4) * 16, url_safe)] + if pad {
            seq!['=', '=']
        } else {
            Seq::empty()
        }
    } else if bytes.len() == 2 {
        let b0 = bytes[0] as int;
        let b1 = bytes[1] as int;
        seq![
            base64_digit(b0 / 4, url_safe),
            base64_digit((b0 % 4) * 16 + b1 / 16, url_safe),
            base64_digit((b1 % 16) * 4, url_safe),
        ] + if pad {
            seq!['=']
        } else {
            Seq::empty()
        }
    } else {
        let b0 = bytes[0] as int;
        let b1 = bytes[1] as int;
        let b2 = bytes[2] as int;
        seq![
            base64_digit(b0 / 4, url_safe),
            base64_digit((b0 % 4) * 16 + b1 / 16, url_safe),
            base64_digit((b1 % 16) * 4 + b2 / 64, url_safe),
            base64_digit(b2 % 64, url_safe),
        ] + base64_text(bytes.skip(3), url_safe, pad)
    }
}

/// The Base64 text of `bytes` in the standard alphabet, padded with `=`.
pub open spec fn base64_standard(bytes: Seq<u8>) -> Seq<char> {
    base64_text(bytes, false, true)
}

/// The Base64 text of `bytes` in the URL-safe alphabet, without padding.
pub open spec fn base64_url_safe_no_pad(bytes: Seq<u8>) -> Seq<char> {
    base64_text(bytes, true, false)
}

/// The lowercase hexadecimal digit of `v` (below 16).
pub open spec fn lower_hex_digit(v: int) -> char {
    if v < 10 {
        (48 + v) as char
    } else {
        (87 + v) as char
    }
}

/// How `serde_json` writes `c` inside a string literal: `"` and `\` behind a
/// backslash; backspace, tab, line feed, form feed and carriage return as
/// `\b`, `\t`, `\n`, `\f`, `\r`; the other control characters below
/// U+0020 as `\u00` and two lowercase hex digits; every other character as
/// itself.
pub open spec fn json_escape(c: char) -> Seq<char> {
    let v = c as int;
    if c == '"' {
        seq!['\\', '"']
    } else if c == '\\' {
        seq!['\\', '\\']
    } else if v == 8 {
        seq!['\\', 'b']
    } else if v == 9 {
        seq!['\\', 't']
    } else if v == 10 {
        seq!['\\', 'n']
    } else if v == 12 {
        seq!['\\', 'f']
    } else if v == 13 {
        seq!['\\', 'r']
    } else if v < 32 {
        seq!['\\', 'u', '0', '0', lower_hex_digit(v / 16), lower_hex_digit(v % 16)]
    } else {
        seq![c]
    }
}

/// The characters of `text`, each escaped as in a JSON string literal.
pub open spec fn json_escaped(text: Seq<char>) -> Seq<char>
    decreases text.len(),
{
    if text.len() == 0 {
        Seq::empty()
    } else {
        json_escaped(text.drop_last()) + json_escape(text.last())
    }
}

/// The JSON string literal that `serde_json` writes for `text`: the escaped
/// characters between double quotes.
pub open spec fn json_string_literal(text: Seq<char>) -> Seq<char> {
    seq!['"'] + json_escaped(text) + seq!['"']
}

/// The length `base64::encoded_len` computes for `n` input bytes with padding.
pub open spec fn base64_padded_len(n: int) -> int {
    n / 3 * 4 + if n % 3 > 0 {
        4int
    } else {
        0int
    }
}

/// The length `base64::encoded_len` computes for `n` input bytes without padding.
pub open spec fn base64_unpadded_len(n: int) -> int {
    n / 3 * 4 + if n % 3 == 1 {
        2int
    } else if n % 3 == 2 {
        3int
    } else {
        0int
    }
}

/// `sha2::Sha256` (`new`, `update`, `finalize`): the digest of `data`, which
/// is 32 bytes long (the hasher's output size is `U32`).
#[verifier::external_body]
pub(crate) fn sha256(data: &[u8]) -> (r: Vec<u8>)
    ensures
        r@ == sha256_digest(data@),
        r@.len() == 32,
{
    let mut hasher = Sha256::new();
    hasher.update(data);
    hasher.finalize().to_vec()
}

/// `base64::Engine::encode` with `general_purpose::STANDARD`: the RFC 4648
/// standard alphabet, padded. The crate panics when the encoded length
/// overflows `usize`, which `requires` rules out.
#[verifier::external_body]
pub(crate) fn encode_base64_standard(bytes: &[u8]) -> (r: String)
    requires
        base64_padded_len(bytes@.len() as int) <= usize::MAX,
    ensures
        r@ == base64_standard(bytes@),
{
    general_purpose::STANDARD.encode(bytes)
}

/// `base64::Engine::encode` with `general_purpose::URL_SAFE_NO_PAD`: the RFC
/// 4648 URL-safe alphabet, unpadded. The crate panics when the encoded length
/// overflows `usize`, which `requires` rules out.
#[verifier::external_body]
pub(crate) fn encode_base64_url_safe_no_pad(bytes: &[u8]) -> (r: String)
    requires
        base64_unpadded_len(bytes@.len() as int) <= usize::MAX,
    ensures
        r@ == base64_url_safe_no_pad(bytes@),
{
    general_purpose::URL_SAFE_NO_PAD.encode(bytes)
}

#[verifier::external_type_specification]
#[verifier::external_body]
pub struct ExJsonError(serde_json::Error);

/// `serde_json::to_string` on a string: the JSON string literal for `text`,
/// escaped as `format_escaped_str` does. It always succeeds: a string is serialised by escaping it into a
/// `Vec<u8>`, and the only errors on that path are the writer's, which a
/// `Vec<u8>` never returns.
#[verifier::external_body]
pub(crate) fn encode_json_string(text: &str) -> (r: Result<String, serde_json::Error>)
    ensures
        r is Ok,
        r matches Ok(json) ==> json@ == json_string_literal(text@),
{
    serde_json::to_string(text)
}

/// The text `serde_json::Error`'s `Display` gives; nothing is claimed of it.
#[verifier::external_body]
pub(crate) fn json_error_text(error: &serde_json::Error) -> String {
    error.to_string()
}

} // verus!
