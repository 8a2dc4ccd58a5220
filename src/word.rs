//! Little-endian conversion between machine words and their bytes.

use vstd::bytes::{spec_u64_from_le_bytes, spec_u64_to_le_bytes};
use vstd::prelude::*;
use byteorder::ByteOrder;

verus! {

/// Size in bytes of one tracee machine word.
pub const WORD_SIZE: u64 = 8;

/// Relies on byteorder's `LittleEndian::write_u64`: it stores the eight
/// bytes of `w`, least significant first.
#[verifier::external_body]
pub(crate) fn le_bytes_of_word(w: u64) -> (r: Vec<u8>)
    ensures
        r@ == spec_u64_to_le_bytes(w),
{
    let mut buf = [0u8; 8];
    byteorder::LittleEndian::write_u64(&mut buf, w);
    buf.to_vec()
}

/// Relies on byteorder's `LittleEndian::read_u64`: it reads the first eight
/// bytes of `b` as a little-endian word (it panics on fewer than eight).
#[verifier::external_body]
pub(crate) fn word_of_le_bytes(b: &Vec<u8>) -> (r: u64)
    requires
        b@.len() == 8,
    ensures
        r == spec_u64_from_le_bytes(b@),
{
    byteorder::LittleEndian::read_u64(b.as_slice())
}

} // verus!
