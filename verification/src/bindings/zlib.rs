//! Deflate compression with the zlib wrapper.
use vstd::prelude::*;

verus! {

/// The zlib stream that `miniz_oxide` makes of `data` at `level`.
pub uninterp spec fn zlib_stream(data: Seq<u8>, level: u8) -> Seq<u8>;

/// Calls `miniz_oxide::deflate::compress_to_vec_zlib`: deflate with the zlib
/// header and checksum. The result depends on the data and the level alone.
#[verifier::external_body]
pub(crate) fn compress_zlib(data: &[u8], level: u8) -> (r: Vec<u8>)
    requires
        level <= 10,
    ensures
        r@ == zlib_stream(data@, level),
{
    miniz_oxide::deflate::compress_to_vec_zlib(data, level)
}

} // verus!
