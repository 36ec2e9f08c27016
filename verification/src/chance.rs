//! Draws from the operating system's random source.

use crate::bytes::{to_digest, Digest32};
use crate::scalars::{canonical_scalar, group_order, little_endian_value, scalar_from_wide};
use rand::RngCore;
use vstd::prelude::*;

verus! {

/// Calls `rand::rngs::OsRng::try_fill_bytes` on `size` bytes. Which bytes come
/// is left open, and so is whether the source answers at all.
#[verifier::external_body]
pub(crate) fn draw_bytes(size: usize) -> (r: Result<Vec<u8>, String>)
    ensures
        r matches Ok(bytes) ==> bytes@.len() == size,
{
    let mut bytes = vec![0u8; size];
    match rand::rngs::OsRng.try_fill_bytes(&mut bytes) {
        Err(error) => Err(error.to_string()),
        Ok(_) => Ok(bytes),
    }
}

/// Why a draw of `size` bytes does not serve, if it does not.
pub open spec fn draw_fault(drawn: Result<Vec<u8>, String>, size: nat) -> Option<Seq<char>> {
    match drawn {
        Err(text) => Some(text@),
        Ok(bytes) => if bytes@.len() != size {
            Some("random source returned another number of bytes"@)
        } else {
            None
        },
    }
}

/// What the source itself returns for `size` bytes: that many, or an error.
pub open spec fn draw_sized(drawn: Result<Vec<u8>, String>, size: nat) -> bool {
    drawn matches Ok(bytes) ==> bytes@.len() == size
}

/// A scalar made of a draw: the drawn number modulo the group order.
pub open spec fn reduced(scalar: Seq<u8>, drawn: Seq<u8>) -> bool {
    &&& canonical_scalar(scalar)
    &&& little_endian_value(scalar) == little_endian_value(drawn) % group_order()
}

fn short_draw() -> (text: String)
    ensures
        text@ == "random source returned another number of bytes"@,
{
    "random source returned another number of bytes".to_owned()
}

/// Take a draw of `size` bytes as it is.
pub fn drawn_seed(drawn: Result<Vec<u8>, String>, size: usize) -> (r: Result<Vec<u8>, String>)
    ensures
        r is Ok == draw_fault(drawn, size as nat) is None,
        r matches Ok(seed) ==> seed@ == (drawn->Ok_0)@,
        r matches Err(e) ==> Some(e@) == draw_fault(drawn, size as nat),
{
    match drawn {
        Err(e) => Err(e),
        Ok(bytes) => {
            if bytes.len() != size {
                return Err(short_draw());
            }
            Ok(bytes)
        },
    }
}

/// Make a 32-byte value of a draw.
pub fn drawn_digest(drawn: Result<Vec<u8>, String>) -> (r: Result<Digest32, String>)
    ensures
        r is Ok == draw_fault(drawn, 32) is None,
        r matches Ok(digest) ==> digest@ == (drawn->Ok_0)@,
        r matches Err(e) ==> Some(e@) == draw_fault(drawn, 32),
{
    match drawn {
        Err(e) => Err(e),
        Ok(bytes) => match to_digest(&bytes) {
            None => Err(short_draw()),
            Some(digest) => Ok(digest),
        },
    }
}

/// Make a scalar of a draw of 64 bytes.
pub fn drawn_scalar(drawn: Result<Vec<u8>, String>) -> (r: Result<Digest32, String>)
    ensures
        r is Ok == draw_fault(drawn, 64) is None,
        r matches Ok(scalar) ==> reduced(scalar@, (drawn->Ok_0)@),
        r matches Err(e) ==> Some(e@) == draw_fault(drawn, 64),
{
    match drawn {
        Err(e) => Err(e),
        Ok(bytes) => {
            if bytes.len() != 64 {
                return Err(short_draw());
            }
            Ok(scalar_from_wide(bytes.as_slice()))
        },
    }
}

} // verus!
