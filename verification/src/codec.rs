//! The string codec of the boundary: packed handles — one 64-bit value
//! carrying a 32-bit offset into linear memory (high bits) and a 32-bit
//! length (low bits) — and the conversion between boundary byte regions and
//! in-process text.

use vstd::prelude::*;
use vstd::utf8::decode_utf8;
use vstd::utf8::encode_utf8;
use vstd::utf8::encode_utf8_decode_utf8;
use vstd::utf8::valid_utf8;

verus! {

/// Relies on `String::from_utf8`: it succeeds exactly when the bytes are
/// valid UTF-8, and the string it then returns is the text whose encoding
/// the bytes are.
#[verifier::external_body]
pub fn bytes_to_text(v: Vec<u8>) -> (r: Option<String>)
    ensures
        r is Some <==> valid_utf8(v@),
        r matches Some(s) ==> encode_utf8(s@) == v@,
{
    match String::from_utf8(v) {
        Ok(s) => Some(s),
        Err(_) => None,
    }
}

/// Decoding is the inverse of encoding: text whose encoding a byte region
/// is comes back from that region unchanged.
pub proof fn lemma_decode_of_encoding(s: Seq<char>, v: Seq<u8>)
    requires
        encode_utf8(s) == v,
    ensures
        decode_utf8(v) == s,
{
    encode_utf8_decode_utf8(s);
}

/// The packed handle for a region at `ptr` of `len` bytes: pointer in the
/// high 32 bits, length in the low 32 bits.
pub open spec fn spec_pack(ptr: u32, len: u32) -> u64 {
    ((ptr as u64) << 32) | (len as u64)
}

/// The pointer half of a packed handle.
pub open spec fn spec_unpack_ptr(h: u64) -> u32 {
    (h >> 32) as u32
}

/// The length half of a packed handle.
pub open spec fn spec_unpack_len(h: u64) -> u32 {
    (h & 0xffff_ffff) as u32
}

/// Packing a pointer and a length and unpacking the result gives the pair
/// back unchanged, for every representable 32-bit pointer and length.
pub proof fn lemma_pack_unpack(ptr: u32, len: u32)
    ensures
        spec_unpack_ptr(spec_pack(ptr, len)) == ptr,
        spec_unpack_len(spec_pack(ptr, len)) == len,
{
    assert((((ptr as u64) << 32) | (len as u64)) >> 32 == ptr as u64) by (bit_vector);
    assert(((((ptr as u64) << 32) | (len as u64)) & 0xffff_ffff) == len as u64) by (bit_vector);
}

/// Unpacking a handle and packing the halves again gives the handle back:
/// the codec loses nothing in either direction.
pub proof fn lemma_unpack_pack(h: u64)
    ensures
        spec_pack(spec_unpack_ptr(h), spec_unpack_len(h)) == h,
{
    assert((((h >> 32) as u32 as u64) << 32) | ((h & 0xffff_ffff) as u32 as u64) == h)
        by (bit_vector);
}

/// Combines a pointer and a length into one transferable handle.
pub fn pack(ptr: u32, len: u32) -> (h: u64)
    ensures
        h == spec_pack(ptr, len),
{
    ((ptr as u64) << 32) | (len as u64)
}

/// Splits a packed handle back into its pointer and length halves.
pub fn unpack(h: u64) -> (r: (u32, u32))
    ensures
        r.0 == spec_unpack_ptr(h),
        r.1 == spec_unpack_len(h),
{
    let ptr = (h >> 32) as u32;
    let len = (h & 0xffff_ffff) as u32;
    (ptr, len)
}

} // verus!
