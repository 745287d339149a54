//! SHA-256 checksums: reading them from hexadecimal text, and the digest of an archive.
use vstd::prelude::*;

use crate::text::{ascii_lower, chars_of, same_but_for_case};

verus! {

/// A text that is no checksum.
#[derive(Debug)]
pub enum ChecksumError {
    InvalidSha256(String),
}

impl ChecksumError {
    /// What to tell the user.
    pub fn message(&self) -> (text: String)
        ensures
            match self {
                ChecksumError::InvalidSha256(given) => text@ == "invalid SHA-256 `"@ + given@
                    + "`"@,
            },
    {
        match self {
            ChecksumError::InvalidSha256(given) => {
                "invalid SHA-256 `".to_owned().concat(given.as_str()).concat("`")
            },
        }
    }
}

/// The value of a hexadecimal digit, in either case.
pub open spec fn hex_value(c: char) -> Option<u8> {
    if '0' <= c && c <= '9' {
        Some((c as u32 - '0' as u32) as u8)
    } else if 'a' <= c && c <= 'f' {
        Some((c as u32 - 'a' as u32 + 10) as u8)
    } else if 'A' <= c && c <= 'F' {
        Some((c as u32 - 'A' as u32 + 10) as u8)
    } else {
        None
    }
}

/// The byte that two hexadecimal digits stand for.
pub open spec fn byte_value(high: char, low: char) -> Option<u8> {
    match (hex_value(high), hex_value(low)) {
        (Some(h), Some(l)) => Some((16 * h + l) as u8),
        _ => None,
    }
}

/// The text is 32 pairs of characters that each stand for a byte.
pub open spec fn is_checksum(text: Seq<char>) -> bool {
    text.len() == 64 && forall|i: int|
        0 <= i < 32 ==> byte_value(#[trigger] text[2 * i], text[2 * i + 1]) is Some
}

/// The bytes that such a text stands for.
pub open spec fn checksum_bytes(text: Seq<char>) -> Seq<u8> {
    Seq::new(32, |i: int| byte_value(text[2 * i], text[2 * i + 1])->0)
}

/// The SHA-256 digest of `data`.
pub uninterp spec fn sha256(data: Seq<u8>) -> Seq<u8>;

/// `sha2::Sha256::digest`: the SHA-256 digest of the data, which depends on nothing else.
#[verifier::external_body]
pub(crate) fn sha256_digest(data: &[u8]) -> (digest: [u8; 32])
    ensures
        digest@ == sha256(data@),
{
    <sha2::Sha256 as sha2::Digest>::digest(data).into()
}

fn hex_digit(c: char) -> (value: Option<u8>)
    ensures
        value == hex_value(c),
{
    if '0' <= c && c <= '9' {
        Some(c as u8 - 48)
    } else if 'a' <= c && c <= 'f' {
        Some(c as u8 - 87)
    } else if 'A' <= c && c <= 'F' {
        Some(c as u8 - 55)
    } else {
        None
    }
}

fn byte_of(high: char, low: char) -> (value: Option<u8>)
    ensures
        value == byte_value(high, low),
{
    match (hex_digit(high), hex_digit(low)) {
        (Some(h), Some(l)) => Some(16 * h + l),
        _ => None,
    }
}

/// Whether the two digests are the same.
pub fn same_digest(a: &[u8; 32], b: &[u8; 32]) -> (same: bool)
    ensures
        same == (a@ == b@),
{
    for i in 0..32
        invariant
            forall|j: int| 0 <= j < i ==> a@[j] == b@[j],
    {
        if a[i] != b[i] {
            return false;
        }
    }
    assert(a@ =~= b@);
    true
}

/// The 32 bytes that the text stands for in hexadecimal notation.
pub fn parse_sha256(text: &str) -> (bytes: Result<[u8; 32], ChecksumError>)
    ensures
        bytes is Ok <==> is_checksum(text@),
        bytes matches Ok(bytes) ==> bytes@ == checksum_bytes(text@),
        bytes matches Err(ChecksumError::InvalidSha256(given)) ==> given@ == text@,
{
    let chars: Vec<char> = chars_of(text);
    if chars.len() != 64 {
        return Err(ChecksumError::InvalidSha256(text.to_owned()));
    }
    let mut bytes: [u8; 32] = [0; 32];
    for i in 0..32
        invariant
            chars@ == text@,
            chars.len() == 64,
            forall|j: int|
                0 <= j < i ==> byte_value(#[trigger] text@[2 * j], text@[2 * j + 1]) is Some,
            forall|j: int| 0 <= j < i ==> #[trigger] bytes@[j] == checksum_bytes(text@)[j],
    {
        match byte_of(chars[2 * i], chars[2 * i + 1]) {
            Some(byte) => {
                bytes[i] = byte;
            },
            None => {
                assert(byte_value(text@[2 * i], text@[2 * i + 1]) is None);
                return Err(ChecksumError::InvalidSha256(text.to_owned()));
            },
        }
    }
    assert(bytes@ =~= checksum_bytes(text@));
    Ok(bytes)
}

/// The hexadecimal digit for a value below 16.
pub open spec fn hex_char(value: int) -> char {
    if value < 10 {
        (48 + value) as char
    } else {
        (87 + value) as char
    }
}

/// Bytes in hexadecimal notation, with lower-case letters.
pub open spec fn hex_text(bytes: Seq<u8>) -> Seq<char> {
    Seq::new(
        2 * bytes.len(),
        |i: int|
            hex_char(
                if i % 2 == 0 {
                    bytes[i / 2] as int / 16
                } else {
                    bytes[i / 2] as int % 16
                },
            ),
    )
}

/// A digest in hexadecimal notation is a checksum, and stands for that digest.
pub proof fn a_written_digest_is_read_back(digest: Seq<u8>)
    requires
        digest.len() == 32,
    ensures
        is_checksum(hex_text(digest)),
        checksum_bytes(hex_text(digest)) == digest,
{
    let text = hex_text(digest);
    assert forall|i: int| 0 <= i < 32 implies byte_value(#[trigger] text[2 * i], text[2 * i + 1])
        == Some(digest[i]) by {
        let byte = digest[i] as int;
        lemma_hex_char(byte / 16);
        lemma_hex_char(byte % 16);
        assert((2 * i) / 2 == i && (2 * i + 1) / 2 == i);
    }
    assert(checksum_bytes(text) =~= digest);
}

/// A digit of a checksum, and what it is when the checksum is written again.
pub(crate) proof fn lemma_hex_digit(text: Seq<char>, i: int)
    requires
        is_checksum(text),
        0 <= i < 64,
    ensures
        hex_value(text[i]) is Some,
        hex_text(checksum_bytes(text))[i] == hex_char(hex_value(text[i])->0 as int),
{
    let k = i / 2;
    assert(byte_value(text[2 * k], text[2 * k + 1]) is Some);
    let (h, l) = (hex_value(text[2 * k])->0, hex_value(text[2 * k + 1])->0);
    assert(checksum_bytes(text)[k] == (16 * h + l) as u8);
}

proof fn lemma_hex_char(value: int)
    requires
        0 <= value < 16,
    ensures
        hex_value(hex_char(value)) == Some(value as u8),
{
}

/// Whether a text is a checksum, and which, does not depend on the case of its letters.
pub proof fn case_makes_no_difference(a: Seq<char>, b: Seq<char>)
    requires
        same_but_for_case(a, b),
    ensures
        is_checksum(a) == is_checksum(b),
        is_checksum(a) ==> checksum_bytes(a) == checksum_bytes(b),
{
    if a.len() == 64 {
        assert forall|i: int| 0 <= i < 32 implies byte_value(#[trigger] a[2 * i], a[2 * i + 1])
            == byte_value(b[2 * i], b[2 * i + 1]) by {
            assert(ascii_lower(a[2 * i]) == ascii_lower(b[2 * i]));
            assert(ascii_lower(a[2 * i + 1]) == ascii_lower(b[2 * i + 1]));
        }
        if is_checksum(b) {
            assert forall|i: int| 0 <= i < 32 implies byte_value(
                #[trigger] a[2 * i],
                a[2 * i + 1],
            ) is Some by {
                assert(byte_value(b[2 * i], b[2 * i + 1]) is Some);
            }
        }
        if is_checksum(a) {
            assert forall|i: int| 0 <= i < 32 implies byte_value(
                #[trigger] b[2 * i],
                b[2 * i + 1],
            ) is Some by {
                assert(byte_value(a[2 * i], a[2 * i + 1]) is Some);
            }
            assert(checksum_bytes(a) =~= checksum_bytes(b));
        }
    }
}

} // verus!
