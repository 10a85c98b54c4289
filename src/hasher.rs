//! One-way, deterministic transformation of a plaintext password into the
//! digest text that is stored in place of the password.

use sha3::{Digest, Sha3_256};
use vstd::prelude::*;

verus! {

/// The SHA3-256 digest of the UTF-8 encoding of `text`.
pub uninterp spec fn sha3_256_of(text: Seq<char>) -> Seq<u8>;

/// Relies on `sha3::Sha3_256` through `digest::Digest::digest` (sha3 0.10):
/// the digest of the UTF-8 bytes of `text`, which depends on the text alone
/// and is 32 bytes long (the output size of SHA3-256).
#[verifier::external_body]
fn sha3_256(text: &str) -> (r: Vec<u8>)
    ensures
        r@ == sha3_256_of(text@),
        r@.len() == 32,
{
    Sha3_256::digest(text.as_bytes()).to_vec()
}

/// The upper-case hexadecimal digit for a value below 16.
pub open spec fn hex_digit(n: u8) -> char {
    if n < 10 {
        ((48 + n) as u8) as char
    } else {
        ((55 + n) as u8) as char
    }
}

/// Upper-case hexadecimal text of a byte sequence: two digits per byte,
/// high nibble first.
pub open spec fn hex_upper(bytes: Seq<u8>) -> Seq<char>
    decreases bytes.len(),
{
    if bytes.len() == 0 {
        Seq::empty()
    } else {
        let b = bytes.last();
        hex_upper(bytes.drop_last()) + seq![hex_digit(b / 16), hex_digit(b % 16)]
    }
}

/// A character that can occur in upper-case hexadecimal text.
pub open spec fn is_upper_hex_char(c: char) -> bool {
    ('0' <= c && c <= '9') || ('A' <= c && c <= 'F')
}

/// The digest text stored for a plaintext password.
pub open spec fn digest_of(text: Seq<char>) -> Seq<char> {
    hex_upper(sha3_256_of(text))
}

/// Hexadecimal text has two characters per byte.
pub proof fn lemma_hex_upper_len(bytes: Seq<u8>)
    ensures
        hex_upper(bytes).len() == 2 * bytes.len(),
    decreases bytes.len(),
{
    if bytes.len() > 0 {
        lemma_hex_upper_len(bytes.drop_last());
    }
}

/// Every character of hexadecimal text is an upper-case hex digit.
pub proof fn lemma_hex_upper_chars(bytes: Seq<u8>)
    ensures
        forall|i: int| 0 <= i < hex_upper(bytes).len() ==> is_upper_hex_char(#[trigger] hex_upper(bytes)[i]),
    decreases bytes.len(),
{
    if bytes.len() > 0 {
        let b = bytes.last();
        lemma_hex_upper_chars(bytes.drop_last());
        assert(b / 16 < 16 && b % 16 < 16);
        let pre = hex_upper(bytes.drop_last());
        let tail = seq![hex_digit(b / 16), hex_digit(b % 16)];
        assert(is_upper_hex_char(tail[0]) && is_upper_hex_char(tail[1]));
        assert forall|i: int| 0 <= i < hex_upper(bytes).len() implies is_upper_hex_char(
            #[trigger] hex_upper(bytes)[i],
        ) by {
            if i < pre.len() {
                assert(hex_upper(bytes)[i] == pre[i]);
            } else {
                assert(hex_upper(bytes)[i] == tail[i - pre.len()]);
            }
        }
    }
}

/// The text of one hexadecimal digit.
fn hex_digit_char(n: u8) -> (c: char)
    requires
        n < 16,
    ensures
        c == hex_digit(n),
{
    if n < 10 {
        (48 + n) as char
    } else {
        (55 + n) as char
    }
}

/// Relies on `String::push`: appends one character at the end.
#[verifier::external_body]
fn push_char(s: &mut String, c: char)
    ensures
        final(s)@ == old(s)@.push(c),
{
    s.push(c)
}

/// Encodes bytes as upper-case hexadecimal text.
pub fn encode_hex_upper(bytes: &[u8]) -> (r: String)
    ensures
        r@ == hex_upper(bytes@),
{
    let mut out = String::new();
    let mut i: usize = 0;
    while i < bytes.len()
        invariant
            i <= bytes@.len(),
            out@ == hex_upper(bytes@.subrange(0, i as int)),
        decreases bytes@.len() - i,
    {
        let b = bytes[i];
        proof {
            assert(bytes@.subrange(0, i as int + 1).drop_last() =~= bytes@.subrange(0, i as int));
        }
        push_char(&mut out, hex_digit_char(b / 16));
        push_char(&mut out, hex_digit_char(b % 16));
        i = i + 1;
    }
    proof {
        assert(bytes@.subrange(0, i as int) =~= bytes@);
    }
    out
}

/// The digest stored for `password`: upper-case hexadecimal text of the
/// SHA3-256 digest of its UTF-8 encoding, 64 characters long.
pub fn digest(password: &str) -> (r: String)
    ensures
        r@ == digest_of(password@),
        r@.len() == 64,
        forall|i: int| 0 <= i < r@.len() ==> is_upper_hex_char(#[trigger] r@[i]),
{
    let bytes = sha3_256(password);
    proof {
        lemma_hex_upper_len(bytes@);
        lemma_hex_upper_chars(bytes@);
    }
    encode_hex_upper(bytes.as_slice())
}

} // verus!
