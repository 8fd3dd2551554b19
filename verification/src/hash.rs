//! Checksums of byte contents: the bytes are written out as decimal
//! numbers, one per byte, each followed by a space, and the resulting text
//! is digested with SHA-256. Reading the bytes from disk is file-system
//! work and lives outside this crate.

use vstd::prelude::*;

use crate::filesystem::string_push_char;

verus! {

/// The SHA-256 hex digest of a string.
pub uninterp spec fn digest_of(s: Seq<char>) -> Seq<char>;

/// Relies on sha256::digest: the SHA-256 hex digest of a string, a
/// function of its characters alone. The crate hex-encodes the 32-byte
/// digest, so the text is 64 lowercase hexadecimal characters.
#[verifier::external_body]
fn sha256_digest(input: &str) -> (r: String)
    ensures
        r@ == digest_of(input@),
        r@.len() == 64,
        forall|i: int|
            0 <= i < 64 ==> ('0' <= #[trigger] r@[i] <= '9' || 'a' <= r@[i] <= 'f'),
{
    sha256::digest(input)
}

/// The decimal digit character for `d`.
pub open spec fn spec_digit(d: int) -> char {
    ((48 + d) as u8) as char
}

/// The decimal text of one byte, without leading zeros.
pub open spec fn spec_byte_decimal(b: u8) -> Seq<char> {
    if b >= 100 {
        seq![
            spec_digit(b as int / 100),
            spec_digit((b as int / 10) % 10),
            spec_digit(b as int % 10),
        ]
    } else if b >= 10 {
        seq![spec_digit(b as int / 10), spec_digit(b as int % 10)]
    } else {
        seq![spec_digit(b as int)]
    }
}

/// The text digested for a byte sequence: each byte in decimal, each
/// followed by one space.
pub open spec fn spec_checksum_input(bytes: Seq<u8>) -> Seq<char>
    decreases bytes.len(),
{
    if bytes.len() == 0 {
        Seq::empty()
    } else {
        spec_checksum_input(bytes.drop_last()) + spec_byte_decimal(bytes.last()) + seq![' ']
    }
}

/// Appends the decimal text of one byte and a trailing space.
fn push_byte_decimal(s: &mut String, b: u8)
    ensures
        final(s)@ == old(s)@ + spec_byte_decimal(b) + seq![' '],
{
    if b >= 100 {
        string_push_char(s, (48 + b / 100) as char);
        string_push_char(s, (48 + (b / 10) % 10) as char);
        string_push_char(s, (48 + b % 10) as char);
    } else if b >= 10 {
        string_push_char(s, (48 + b / 10) as char);
        string_push_char(s, (48 + b % 10) as char);
    } else {
        string_push_char(s, (48 + b) as char);
    }
    string_push_char(s, ' ');
    proof {
        assert(s@ =~= old(s)@ + spec_byte_decimal(b) + seq![' ']);
    }
}

/// The checksum of byte contents: the SHA-256 digest of the bytes written
/// out in decimal, space separated, as 64 lowercase hexadecimal characters.
pub fn bytes_checksum(bytes: &Vec<u8>) -> (r: String)
    ensures
        r@ == digest_of(spec_checksum_input(bytes@)),
        r@.len() == 64,
        forall|i: int|
            0 <= i < 64 ==> ('0' <= #[trigger] r@[i] <= '9' || 'a' <= r@[i] <= 'f'),
{
    let n = bytes.len();
    let mut text = String::new();
    let mut i: usize = 0;
    proof {
        assert(text@ =~= spec_checksum_input(bytes@.take(0)));
    }
    while i < n
        invariant
            n == bytes@.len(),
            i <= n,
            text@ == spec_checksum_input(bytes@.take(i as int)),
        decreases n - i,
    {
        push_byte_decimal(&mut text, bytes[i]);
        proof {
            assert(bytes@.take(i + 1).drop_last() =~= bytes@.take(i as int));
        }
        i = i + 1;
    }
    proof {
        assert(bytes@.take(n as int) =~= bytes@);
    }
    sha256_digest(text.as_str())
}

} // verus!
