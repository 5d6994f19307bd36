//! The digest engine: a structure's canonical form (a character sequence
//! with its own digest field held at the sentinel) is encoded as UTF-8,
//! hashed with SHA-256, and the digest is rendered as 64 lower-case hex
//! characters — the structure's self-addressing identifier.

use vstd::prelude::*;
use vstd::utf8::encode_utf8;
use crate::text::push_char;

verus! {

/// What SHA-256 returns on a byte sequence. The result is a function of
/// the input bytes alone.
pub uninterp spec fn sha256_of(bytes: Seq<u8>) -> Seq<u8>;

/// Relies on sha2's one-shot `Digest::digest` for `Sha256`: the 32-byte
/// SHA-256 digest of the input, a function of the input bytes alone.
#[verifier::external_body]
fn sha256(bytes: &[u8]) -> (r: Vec<u8>)
    ensures
        r@ == sha256_of(bytes@),
        r@.len() == 32,
{
    <sha2::Sha256 as sha2::Digest>::digest(bytes).to_vec()
}

/// The lower-case hex character for one value below 16.
pub open spec fn hex_digit(n: int) -> char {
    if n == 0 { '0' } else if n == 1 { '1' } else if n == 2 { '2' } else if n == 3 { '3' }
    else if n == 4 { '4' } else if n == 5 { '5' } else if n == 6 { '6' } else if n == 7 { '7' }
    else if n == 8 { '8' } else if n == 9 { '9' } else if n == 10 { 'a' } else if n == 11 { 'b' }
    else if n == 12 { 'c' } else if n == 13 { 'd' } else if n == 14 { 'e' } else { 'f' }
}

fn hex_digit_char(n: u8) -> (r: char)
    requires
        n < 16,
    ensures
        r == hex_digit(n as int),
{
    if n == 0 { '0' } else if n == 1 { '1' } else if n == 2 { '2' } else if n == 3 { '3' }
    else if n == 4 { '4' } else if n == 5 { '5' } else if n == 6 { '6' } else if n == 7 { '7' }
    else if n == 8 { '8' } else if n == 9 { '9' } else if n == 10 { 'a' } else if n == 11 { 'b' }
    else if n == 12 { 'c' } else if n == 13 { 'd' } else if n == 14 { 'e' } else { 'f' }
}

/// Two lower-case hex characters per byte, high nibble first.
pub open spec fn hex_of(bytes: Seq<u8>) -> Seq<char> {
    Seq::new(
        2 * bytes.len(),
        |i: int| if i % 2 == 0 {
            hex_digit((bytes[i / 2] as int) / 16)
        } else {
            hex_digit((bytes[i / 2] as int) % 16)
        },
    )
}

/// Appends the hex rendering of `bytes` to `out`.
fn append_hex(out: &mut String, bytes: &Vec<u8>)
    ensures
        final(out)@ == old(out)@ + hex_of(bytes@),
{
    let n = bytes.len();
    let mut j: usize = 0;
    while j < n
        invariant
            j <= n,
            n == bytes@.len(),
            out@ == old(out)@ + hex_of(bytes@.take(j as int)),
        decreases n - j,
    {
        let b = bytes[j];
        push_char(out, hex_digit_char(b / 16));
        push_char(out, hex_digit_char(b % 16));
        proof {
            assert(out@ =~= old(out)@ + hex_of(bytes@.take(j + 1))) by {
                assert(hex_of(bytes@.take(j + 1)) =~= hex_of(bytes@.take(j as int))
                    .push(hex_digit((bytes@[j as int] as int) / 16))
                    .push(hex_digit((bytes@[j as int] as int) % 16)));
            }
        }
        j += 1;
    }
    proof {
        assert(bytes@.take(n as int) =~= bytes@);
    }
}

/// The self-addressing identifier of a canonical character sequence.
pub open spec fn sai_of(s: Seq<char>) -> Seq<char> {
    hex_of(sha256_of(encode_utf8(s)))
}

/// Computes the self-addressing identifier of a canonical form.
pub fn sai_for(canonical: &str) -> (r: String)
    ensures
        r@ == sai_of(canonical@),
        r@.len() == 64,
{
    let hash = sha256(canonical.as_bytes());
    let mut out = String::new();
    append_hex(&mut out, &hash);
    out
}

} // verus!
