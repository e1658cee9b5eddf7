//! Decoding, resampling and encoding of raster images.
use vstd::prelude::*;

verus! {

#[verifier::external_type_specification]
#[verifier::external_body]
pub struct ExImageError(image::ImageError);

/// What `image` decodes `data` to: width, height and the samples as rows
/// of red, green, blue and alpha bytes; `None` where it rejects the data.
pub uninterp spec fn decoded_image(data: Seq<u8>) -> Option<(u32, u32, Seq<u8>)>;

/// The JPEG stream that `image` encodes the RGB samples to at `quality`;
/// `None` where it refuses.
pub uninterp spec fn jpeg_stream(pixels: Seq<u8>, width: u32, height: u32, quality: u8) -> Option<
    Seq<u8>,
>;

/// Calls `image::load_from_memory`, which guesses the format from the
/// data, and `DynamicImage::to_rgba8` on what it returns. The outcome
/// depends on the data alone. An image buffer holds four bytes for every
/// sample of its width times its height.
#[verifier::external_body]
pub(crate) fn decode_rgba(data: &[u8]) -> (r: Result<(u32, u32, Vec<u8>), image::ImageError>)
    ensures
        match r {
            Ok(d) => decoded_image(data@) == Some((d.0, d.1, d.2@)) && d.2@.len() == d.0 * d.1 * 4,
            Err(_) => decoded_image(data@) is None,
        },
{
    let decoded = image::load_from_memory(data)?;
    let rgba = decoded.to_rgba8();
    Ok((rgba.width(), rgba.height(), rgba.into_raw()))
}

/// The `Display` text of an `image::ImageError`.
#[verifier::external_body]
pub(crate) fn image_error_text(e: &image::ImageError) -> String {
    format!("{}", e)
}

/// Calls `image::imageops::resize` with the filter `Lanczos3` on an RGB
/// image of `width` by `height` samples. The result holds three bytes for
/// every sample of the new size; its values are not stated.
#[verifier::external_body]
pub(crate) fn resize_lanczos3(
    pixels: Vec<u8>,
    width: u32,
    height: u32,
    new_width: u32,
    new_height: u32,
) -> (r: Vec<u8>)
    requires
        pixels@.len() == width * height * 3,
        width > 0,
        height > 0,
    ensures
        r@.len() == new_width * new_height * 3,
{
    let source = image::RgbImage::from_raw(width, height, pixels).unwrap();
    let filter = image::imageops::FilterType::Lanczos3;
    image::imageops::resize(&source, new_width, new_height, filter).into_raw()
}

/// Calls `image::codecs::jpeg::JpegEncoder::new_with_quality` and `encode`
/// with the colour type `Rgb8`. The outcome depends on the arguments alone.
#[verifier::external_body]
pub(crate) fn encode_jpeg(pixels: &[u8], width: u32, height: u32, quality: u8) -> (r: Result<
    Vec<u8>,
    image::ImageError,
>)
    requires
        pixels@.len() == width * height * 3,
    ensures
        match r {
            Ok(v) => jpeg_stream(pixels@, width, height, quality) == Some(v@),
            Err(_) => jpeg_stream(pixels@, width, height, quality) is None,
        },
{
    let mut out = Vec::new();
    let mut encoder = image::codecs::jpeg::JpegEncoder::new_with_quality(&mut out, quality);
    encoder.encode(pixels, width, height, image::ColorType::Rgb8)?;
    Ok(out)
}

} // verus!
