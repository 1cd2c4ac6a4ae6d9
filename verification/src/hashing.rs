//! Content addressing: the BLAKE2b digest behind a trusted wrapper, and the
//! canonical byte encodings that everything hashed in this crate goes through.

use vstd::prelude::*;
use vstd::bytes::{spec_u128_to_le_bytes, u128_to_le_bytes, lemma_auto_spec_u128_to_from_le_bytes};
use vstd::utf8::encode_utf8;
use blake2::Digest;

verus! {

/// The BLAKE2b-512 digest of a byte string. The digest itself is far too
/// involved to restate here; all this crate relies on is that it is a pure
/// function of the input bytes.
pub uninterp spec fn blake2b_of(data: Seq<u8>) -> Seq<u8>;

/// Relies on `blake2::Blake2b512` through `digest::Digest::digest`: the
/// digest is a deterministic function of the input bytes alone, and
/// `Blake2b512` (BLAKE2b with `U64` output) always yields 64 bytes.
#[verifier::external_body]
pub(crate) fn blake2b(data: &[u8]) -> (r: Vec<u8>)
    ensures
        r@ == blake2b_of(data@),
        r@.len() == 64,
{
    blake2::Blake2b512::digest(data).to_vec()
}

/// Canonical encoding of an unsigned 128-bit integer: 16 bytes,
/// little-endian.
pub open spec fn enc_u128(n: u128) -> Seq<u8> {
    spec_u128_to_le_bytes(n)
}

/// Canonical encoding of a string: the byte length of its UTF-8 form,
/// then the UTF-8 bytes themselves.
pub open spec fn enc_str(s: Seq<char>) -> Seq<u8> {
    enc_u128(encode_utf8(s).len() as u128) + encode_utf8(s)
}

/// Two distinct integers never share a canonical encoding.
pub proof fn lemma_enc_u128_injective(a: u128, b: u128)
    requires
        a != b,
    ensures
        enc_u128(a) != enc_u128(b),
{
    lemma_auto_spec_u128_to_from_le_bytes();
    assert(spec_u128_to_le_bytes(a).len() == 16);
    assert(spec_u128_to_le_bytes(b).len() == 16);
    assert(vstd::bytes::spec_u128_from_le_bytes(spec_u128_to_le_bytes(a)) == a);
    assert(vstd::bytes::spec_u128_from_le_bytes(spec_u128_to_le_bytes(b)) == b);
}

/// The canonical encoding of an integer is 16 bytes long.
pub proof fn lemma_enc_u128_len(a: u128)
    ensures
        enc_u128(a).len() == 16,
{
    lemma_auto_spec_u128_to_from_le_bytes();
}

/// Appends the canonical encoding of `n` to `out`.
pub fn encode_u128(out: &mut Vec<u8>, n: u128)
    ensures
        final(out)@ == old(out)@ + enc_u128(n),
{
    let mut bytes = u128_to_le_bytes(n);
    out.append(&mut bytes);
}

/// Appends the canonical encoding of `s` to `out`.
pub fn encode_string(out: &mut Vec<u8>, s: &String)
    ensures
        final(out)@ == old(out)@ + enc_str(s@),
{
    let bytes = s.as_str().as_bytes();
    encode_u128(out, bytes.len() as u128);
    let mut tail = vstd::slice::slice_to_vec(bytes);
    out.append(&mut tail);
    proof {
        assert(out@ =~= old(out)@ + enc_str(s@));
    }
}

} // verus!
