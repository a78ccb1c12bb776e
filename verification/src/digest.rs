//! SHA-256 digests and their lower-case hexadecimal text.
use crate::text::{digit_char, digit_str};
use sha2::Digest;
use vstd::prelude::*;
use vstd::string::*;

verus! {

/// The SHA-256 digest of a byte string.
pub uninterp spec fn sha256(data: Seq<u8>) -> Seq<u8>;

/// Computes SHA-256 with `sha2::Sha256::digest`. The contract claims that the
/// bytes returned are a function of the input bytes, named [`sha256`], and
/// that there are thirty-two of them.
#[verifier::external_body]
fn sha256_bytes(data: &[u8]) -> (out: Vec<u8>)
    ensures
        out@ == sha256(data@),
        out@.len() == 32,
{
    sha2::Sha256::digest(data).to_vec()
}

/// Two lower-case hexadecimal digits for each byte, high digit first.
pub open spec fn hex_text(bytes: Seq<u8>) -> Seq<char> {
    Seq::new(
        2 * bytes.len(),
        |i: int|
            if i % 2 == 0 {
                digit_char(bytes[i / 2] as int / 16)
            } else {
                digit_char(bytes[i / 2] as int % 16)
            },
    )
}

/// The hexadecimal text of the SHA-256 digest of `data`.
pub open spec fn sha256_hex_text(data: Seq<u8>) -> Seq<char> {
    hex_text(sha256(data))
}

/// SHA-256 tells `x` and `y` apart: unless they are equal, their digests
/// differ. No two byte strings are known of which this does not hold.
pub open spec fn sha256_tells_apart(x: Seq<u8>, y: Seq<u8>) -> bool {
    x != y ==> sha256(x) != sha256(y)
}

/// Two byte strings with the same hexadecimal text are equal.
pub proof fn hex_text_is_injective(x: Seq<u8>, y: Seq<u8>)
    requires
        hex_text(x) == hex_text(y),
    ensures
        x == y,
{
    assert(hex_text(x).len() == 2 * x.len());
    assert(hex_text(y).len() == 2 * y.len());
    assert(x.len() == y.len());
    assert forall|i: int| 0 <= i < x.len() implies x[i] == y[i] by {
        let a = x[i] as int;
        let b = y[i] as int;
        let even = 2 * i;
        let odd = 2 * i + 1;
        assert(even % 2 == 0 && even / 2 == i);
        assert(odd % 2 == 1 && odd / 2 == i);
        assert(hex_text(x)[even] == digit_char(a / 16));
        assert(hex_text(y)[even] == digit_char(b / 16));
        assert(hex_text(x)[odd] == digit_char(a % 16));
        assert(hex_text(y)[odd] == digit_char(b % 16));
        assert(digit_char(a / 16) == digit_char(b / 16));
        assert(digit_char(a % 16) == digit_char(b % 16));
        assert(a / 16 == b / 16);
        assert(a % 16 == b % 16);
    }
    assert(x =~= y);
}

/// Writes `bytes` in lower-case hexadecimal.
pub fn hex_string(bytes: &[u8]) -> (out: String)
    ensures
        out@ == hex_text(bytes@),
{
    let mut out = String::new();
    let mut i: usize = 0;
    while i < bytes.len()
        invariant
            i <= bytes.len(),
            out@ == hex_text(bytes@.take(i as int)),
        decreases bytes.len() - i,
    {
        let byte: u8 = bytes[i];
        out.append(digit_str(byte / 16));
        out.append(digit_str(byte % 16));
        i += 1;
        assert(out@ =~= hex_text(bytes@.take(i as int)));
    }
    assert(bytes@.take(i as int) =~= bytes@);
    out
}

/// The SHA-256 digest of `data` in lower-case hexadecimal: sixty-four
/// characters.
pub fn sha256_hex(data: &[u8]) -> (out: String)
    ensures
        out@ == sha256_hex_text(data@),
        out@.len() == 64,
{
    let digest = sha256_bytes(data);
    hex_string(digest.as_slice())
}

} // verus!
