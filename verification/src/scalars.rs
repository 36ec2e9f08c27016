//! Scalars of the Ristretto group in their 32-byte encoding.

use crate::bytes::Digest32;
use vstd::prelude::*;

verus! {

/// The number that a byte string spells in base 256, least byte first.
pub open spec fn little_endian_value(bytes: Seq<u8>) -> nat
    decreases bytes.len(),
{
    if bytes.len() == 0 {
        0
    } else {
        bytes[0] as nat + 256 * little_endian_value(bytes.drop_first())
    }
}

/// The order of the group.
pub open spec fn group_order() -> nat {
    7237005577332262213973186563042994240857116359379907606001950938285454250989nat
}

/// An encoding of a number below the group order.
pub open spec fn canonical_scalar(bytes: Seq<u8>) -> bool {
    little_endian_value(bytes) < group_order()
}

/// Calls `curve25519_dalek::Scalar::from_canonical_bytes`, which accepts
/// exactly the numbers below the group order.
#[verifier::external_body]
pub(crate) fn scalar_is_canonical(bytes: &Digest32) -> (canonical: bool)
    ensures
        canonical == canonical_scalar(bytes@),
{
    bool::from(curve25519_dalek::Scalar::from_canonical_bytes(*bytes).is_some())
}

/// Calls the addition of `curve25519_dalek::Scalar`, which is addition modulo
/// the group order.
#[verifier::external_body]
pub(crate) fn scalar_sum(a: &Digest32, b: &Digest32) -> (sum: Digest32)
    requires
        canonical_scalar(a@),
        canonical_scalar(b@),
    ensures
        canonical_scalar(sum@),
        little_endian_value(sum@) == (little_endian_value(a@) + little_endian_value(b@))
            % group_order(),
{
    let a = curve25519_dalek::Scalar::from_bytes_mod_order(*a);
    let b = curve25519_dalek::Scalar::from_bytes_mod_order(*b);
    (a + b).to_bytes()
}

/// Calls the subtraction of `curve25519_dalek::Scalar`, which is subtraction
/// modulo the group order.
#[verifier::external_body]
pub(crate) fn scalar_difference(a: &Digest32, b: &Digest32) -> (difference: Digest32)
    requires
        canonical_scalar(a@),
        canonical_scalar(b@),
    ensures
        canonical_scalar(difference@),
        little_endian_value(difference@) == (little_endian_value(a@) + group_order()
            - little_endian_value(b@)) as nat % group_order(),
{
    let a = curve25519_dalek::Scalar::from_bytes_mod_order(*a);
    let b = curve25519_dalek::Scalar::from_bytes_mod_order(*b);
    (a - b).to_bytes()
}

/// Calls `curve25519_dalek::Scalar::from_bytes_mod_order_wide`, which reduces a
/// 512-bit little-endian number modulo the group order.
#[verifier::external_body]
pub(crate) fn scalar_from_wide(bytes: &[u8]) -> (scalar: Digest32)
    requires
        bytes@.len() == 64,
    ensures
        canonical_scalar(scalar@),
        little_endian_value(scalar@) == little_endian_value(bytes@) % group_order(),
{
    let mut wide = [0u8; 64];
    wide.copy_from_slice(bytes);
    curve25519_dalek::Scalar::from_bytes_mod_order_wide(&wide).to_bytes()
}

/// Whether 32 bytes are the encoding of a Ristretto point.
pub uninterp spec fn ristretto_decodes(bytes: Seq<u8>) -> bool;

/// Calls `curve25519_dalek::ristretto::CompressedRistretto::decompress` and
/// tells whether there is such a point.
#[verifier::external_body]
pub(crate) fn point_decodes(bytes: &Digest32) -> (valid: bool)
    ensures
        valid == ristretto_decodes(bytes@),
{
    curve25519_dalek::ristretto::CompressedRistretto(*bytes).decompress().is_some()
}

} // verus!
