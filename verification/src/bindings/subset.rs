//! Font subsetting.
use crate::glyph_names::glyph_names_fit;
use vstd::prelude::*;

verus! {

#[verifier::external_type_specification]
#[verifier::external_body]
pub struct ExSubsetError(subsetter::Error);

/// The font program that `subsetter` reduces face `index` of `data` to when
/// only `glyphs` are kept; `None` where it rejects the font.
pub uninterp spec fn subset_program(data: Seq<u8>, index: u32, glyphs: Set<u16>) -> Option<Seq<u8>>;

/// Calls `subsetter::subset` with the profile `subsetter::Profile::pdf` of
/// `glyphs`, on face `index` of `data`. The subsetter reads the glyph list
/// only to fill a set, so whether it succeeds, and the program it returns,
/// depend on the data, the index and the set of glyphs alone. Which error it
/// reports is not stated. The subsetter counts the kept custom glyph names
/// in 16 bits from 258 on, one for an entry of the table of glyph names at
/// most; data whose table has more than 65277 entries is left out.
#[verifier::external_body]
pub(crate) fn subset_for_pdf(data: &[u8], index: u32, glyphs: &[u16]) -> (r: Result<
    Vec<u8>,
    subsetter::Error,
>)
    requires
        glyph_names_fit(data@, index),
    ensures
        match r {
            Ok(v) => subset_program(data@, index, glyphs@.to_set()) == Some(v@),
            Err(_) => subset_program(data@, index, glyphs@.to_set()) is None,
        },
{
    subsetter::subset(data, index, subsetter::Profile::pdf(glyphs))
}

/// The `Debug` text of a `subsetter::Error`.
#[verifier::external_body]
pub(crate) fn subset_error_text(e: &subsetter::Error) -> String {
    format!("{:?}", e)
}

} // verus!
