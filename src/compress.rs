//! Per-frame LZ4 compression, in lz4_flex's size-prepended block framing.
use vstd::prelude::*;
use crate::le::{read_u32, u32_at};

verus! {

/// What lz4_flex's `decompress_size_prepended` gives back for `data`; `None` where it fails.
pub uninterp spec fn lz4_decompressed(data: Seq<u8>) -> Option<Seq<u8>>;

/// The most bytes `compress` makes of `n` input bytes: lz4_flex's worst-case block size
/// plus the four bytes of the prepended size.
pub open spec fn max_compressed_len(n: int) -> int {
    24 + n * 110 / 100
}

/// The inputs `compress` is called on: lengths whose worst-case output size is
/// computed and allocated without overflow, and which fit the prepended `u32`.
pub open spec fn compressible(n: int) -> bool {
    &&& n <= u32::MAX
    &&& n * 110 <= usize::MAX
    &&& max_compressed_len(n) <= isize::MAX
}

/// The inputs `decompress` is called on. The decoder sums length bytes into a `u32`, so at
/// most 16,843,014 input bytes keep that sum in range; the prepended size is allocated, so
/// it is at most `isize::MAX`; and the output position plus the longest run the input can
/// encode stays within `usize`.
pub open spec fn decompressible(data: Seq<u8>) -> bool {
    &&& data.len() <= 16_843_014
    &&& data.len() >= 4 ==> u32_at(data, 0) <= isize::MAX
    &&& data.len() >= 4 ==> u32_at(data, 0) + 255 * data.len() + 19 <= usize::MAX
}

/// Relies on lz4_flex::compress_prepend_size: it prepends the input length as a
/// little-endian `u32`, writes at most `get_maximum_output_size` bytes after it, and
/// `decompress_size_prepended` gives the input back. The bounds keep its buffer size
/// computation and allocation from overflowing.
#[verifier::external_body]
pub fn compress(data: &[u8]) -> (r: Vec<u8>)
    requires
        compressible(data@.len() as int),
    ensures
        4 <= r@.len() <= max_compressed_len(data@.len() as int),
        u32_at(r@, 0) == data@.len(),
        lz4_decompressed(r@) == Some(data@),
{
    lz4_flex::compress_prepend_size(data)
}

/// Relies on lz4_flex::decompress_size_prepended (safe decoder): the result depends on the
/// input bytes alone; its error is dropped.
#[verifier::external_body]
pub fn decompress(data: &[u8]) -> (r: Option<Vec<u8>>)
    requires
        decompressible(data@),
    ensures
        r is None <==> lz4_decompressed(data@) is None,
        r is Some ==> lz4_decompressed(data@) == Some(r.unwrap()@),
{
    lz4_flex::decompress_size_prepended(data).ok()
}

/// Whether `decompress` may be called on `data`.
pub fn is_decompressible(data: &[u8]) -> (r: bool)
    ensures
        r == decompressible(data@),
{
    let n = data.len();
    if n > 16_843_014 {
        return false;
    }
    if n < 4 {
        return true;
    }
    let size = read_u32(data, 0) as u128;
    size <= isize::MAX as u128 && size + 255 * (n as u128) + 19 <= usize::MAX as u128
}

} // verus!
