//! How streams are stored: deflated with the zlib wrapper where compression
//! is on, plain where it is off.
use crate::bindings::zlib::{compress_zlib, zlib_stream};
use vstd::prelude::*;

verus! {

/// Compression level of stored streams.
pub const DEFLATE_LEVEL: u8 = 6;

/// The bytes of a stream as it is stored: as a zlib stream if
/// compression is on, else unchanged. Deflate is never used without the
/// zlib wrapper, which the stream filter expects.
pub open spec fn stored_stream(data: Seq<u8>, compress: bool) -> Seq<u8> {
    if compress {
        zlib_stream(data, DEFLATE_LEVEL)
    } else {
        data
    }
}

/// The bytes of a stream as it is stored.
pub fn store_stream(data: Vec<u8>, compress: bool) -> (r: Vec<u8>)
    ensures
        r@ == stored_stream(data@, compress),
{
    if compress {
        compress_zlib(data.as_slice(), DEFLATE_LEVEL)
    } else {
        data
    }
}

} // verus!
