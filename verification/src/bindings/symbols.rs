//! Encoding of bar and matrix symbols.
use vstd::prelude::*;

verus! {

#[verifier::external_type_specification]
#[verifier::external_body]
pub struct ExQrError(qrcode::types::QrError);

/// Why `barcoders` refuses a value.
#[derive(Debug, Clone, Copy, PartialEq, Eq, Structural)]
pub enum BarcodeFailure {
    /// A character that the symbology cannot encode.
    Character,
    /// A value that is too short or too long.
    Length,
    Generate,
    Checksum,
}

/// The modules, 1 for a bar and 0 for a gap, that `barcoders` encodes a
/// Code 128 text to, or why it refuses the text.
pub uninterp spec fn code128_encoding(text: Seq<char>) -> Result<Seq<u8>, BarcodeFailure>;

/// The rows of the matrix that `qrcode` encodes `data` to, as text, with
/// or without the quiet zone round it and with every module so many
/// characters wide and high (a dimension of nought counts as one): a line
/// per row of characters, a full block for dark and a space for light;
/// `None` where it refuses the data.
pub uninterp spec fn qr_matrix_text(
    data: Seq<u8>,
    quiet_zone: bool,
    module_width: u32,
    module_height: u32,
) -> Option<Seq<char>>;

/// Calls `barcoders::sym::code128::Code128::new` and `encode`. The text
/// begins with the character that selects a character set. The outcome
/// depends on the text alone. The checksum adds, for each symbol, its
/// value of at most 105 times its place, in 32 bits; a text has at most one
/// symbol for a character, and with at most 6396 symbols the sum stays
/// below two to the power 31.
#[verifier::external_body]
pub(crate) fn code128(text: &str) -> (r: Result<Vec<u8>, BarcodeFailure>)
    requires
        text@.len() <= 6396,
    ensures
        match r {
            Ok(modules) => code128_encoding(text@) == Ok::<Seq<u8>, BarcodeFailure>(modules@),
            Err(failure) => code128_encoding(text@) == Err::<Seq<u8>, BarcodeFailure>(failure),
        },
{
    match barcoders::sym::code128::Code128::new(text) {
        Ok(code) => Ok(code.encode()),
        Err(barcoders::error::Error::Character) => Err(BarcodeFailure::Character),
        Err(barcoders::error::Error::Length) => Err(BarcodeFailure::Length),
        Err(barcoders::error::Error::Generate) => Err(BarcodeFailure::Generate),
        Err(barcoders::error::Error::Checksum) => Err(BarcodeFailure::Checksum),
    }
}

/// Calls `qrcode::QrCode::new` and renders the code with `render` to
/// characters, with `Renderer::quiet_zone` and `Renderer::module_dimensions`
/// set as given, then `build`. The outcome depends on the arguments alone.
/// The renderer multiplies the module dimensions by the count of modules in
/// 32 bits; dimensions of at most 64 cannot overflow that.
#[verifier::external_body]
pub(crate) fn qr_matrix(data: &[u8], quiet_zone: bool, module_width: u32, module_height: u32) -> (r:
    Result<String, qrcode::types::QrError>)
    requires
        module_width <= 64,
        module_height <= 64,
    ensures
        match r {
            Ok(text) => qr_matrix_text(data@, quiet_zone, module_width, module_height) == Some(
                text@,
            ),
            Err(_) => qr_matrix_text(data@, quiet_zone, module_width, module_height) is None,
        },
{
    let code = qrcode::QrCode::new(data)?;
    let mut renderer = code.render::<char>();
    renderer.quiet_zone(quiet_zone).module_dimensions(module_width, module_height);
    Ok(renderer.build())
}

/// The `Display` text of a `qrcode::types::QrError`.
#[verifier::external_body]
pub(crate) fn qr_error_text(e: &qrcode::types::QrError) -> String {
    format!("{}", e)
}

} // verus!
