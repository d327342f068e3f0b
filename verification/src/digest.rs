//! Content hashes in the form that receipts show.
use vstd::prelude::*;
use vstd::string::*;

use crate::numeral;

verus! {

/// The SHA-256 digest of `data`.
pub uninterp spec fn sha256_of(data: Seq<u8>) -> Seq<u8>;

/// `data` in lower case hexadecimal, two digits for each byte, the high half first.
pub open spec fn hex_of(data: Seq<u8>) -> Seq<char> {
    Seq::new(
        2 * data.len(),
        |i: int|
            if i % 2 == 0 {
                numeral::digit_char(data[i / 2] as int / 16)
            } else {
                numeral::digit_char(data[i / 2] as int % 16)
            },
    )
}

/// Calls `sha2::Sha256::digest`. Trusted: the digest is a function of the bytes alone, named by
/// [`sha256_of`], and it is 32 bytes long.
#[verifier::external_body]
pub(crate) fn sha256(data: &[u8]) -> (r: Vec<u8>)
    ensures
        r@ == sha256_of(data@),
        r@.len() == 32,
{
    <sha2::Sha256 as sha2::Digest>::digest(data).to_vec()
}

/// Calls `hex::encode`. Trusted: the text is [`hex_of`] the bytes.
#[verifier::external_body]
pub(crate) fn hex_encode(data: &[u8]) -> (r: String)
    ensures
        r@ == hex_of(data@),
{
    hex::encode(data)
}

/// The first `n` hexadecimal digits of the SHA-256 digest of `text`, as UTF-8.
pub fn sha256_prefix(text: &str, n: usize) -> (r: String)
    requires
        n <= 64,
    ensures
        r@ == hex_of(sha256_of(vstd::utf8::encode_utf8(text@))).take(n as int),
        r@.len() == n,
{
    let digest = sha256(text.as_bytes());
    let hex = hex_encode(digest.as_slice());
    let cut = hex.as_str().substring_char(0, n);
    proof {
        assert(cut@ =~= hex@.take(n as int));
    }
    cut.to_owned()
}

/// Bytes are written one after the other, each as two lower case digits, the high half first.
pub proof fn bytes_are_written_in_turn(a: Seq<u8>, b: Seq<u8>, byte: u8)
    ensures
        hex_of(a + b) == hex_of(a) + hex_of(b),
        hex_of(seq![byte]) == numeral::hexadecimal((byte / 16) as nat) + numeral::hexadecimal(
            (byte % 16) as nat,
        ),
        hex_of(a).len() == 2 * a.len(),
{
    assert(hex_of(a + b) =~= hex_of(a) + hex_of(b)) by {
        assert forall|i: int| 0 <= i < hex_of(a + b).len() implies hex_of(a + b)[i] == (hex_of(a)
            + hex_of(b))[i] by {
            if i < 2 * a.len() {
                assert((a + b)[i / 2] == a[i / 2]);
            } else {
                let j = i - 2 * a.len();
                assert(j / 2 == i / 2 - a.len() && j % 2 == i % 2);
                assert((a + b)[i / 2] == b[j / 2]);
            }
        }
    }
    numeral::hexadecimal_by_digits(0, (byte / 16) as nat);
    numeral::hexadecimal_by_digits(0, (byte % 16) as nat);
    assert(hex_of(seq![byte]) =~= numeral::hexadecimal((byte / 16) as nat) + numeral::hexadecimal(
        (byte % 16) as nat,
    ));
}

} // verus!
