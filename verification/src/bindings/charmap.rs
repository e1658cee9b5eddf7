//! The stream that maps glyph ids back to characters.
use pdf_writer::types::{SystemInfo, UnicodeCmap};
use pdf_writer::{Name, Str};
use vstd::prelude::*;

verus! {

/// The character map stream that `pdf_writer` builds for a map of the given
/// name and character collection, holding `pairs` in this order.
pub uninterp spec fn unicode_cmap_stream(
    name: Seq<u8>,
    registry: Seq<u8>,
    ordering: Seq<u8>,
    supplement: i32,
    pairs: Seq<(u16, char)>,
) -> Seq<u8>;

/// Builds a stream with `pdf_writer::types::UnicodeCmap`: `new` with the
/// name and collection, `pair` for each glyph and character in order, then
/// `finish`. The bytes depend on the arguments alone.
#[verifier::external_body]
pub(crate) fn unicode_cmap(
    name: &[u8],
    registry: &[u8],
    ordering: &[u8],
    supplement: i32,
    pairs: &Vec<(u16, char)>,
) -> (r: Vec<u8>)
    ensures
        r@ == unicode_cmap_stream(name@, registry@, ordering@, supplement, pairs@),
{
    let info = SystemInfo { registry: Str(registry), ordering: Str(ordering), supplement };
    let mut cmap: UnicodeCmap<u16> = UnicodeCmap::new(Name(name), info);
    for pair in pairs.iter() {
        cmap.pair(pair.0, pair.1);
    }
    cmap.finish()
}

} // verus!
