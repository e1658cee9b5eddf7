//! Embedding raster images: flattening transparency, choosing the sample
//! count for the displayed size, and encoding.
use crate::bindings::raster::{
    decode_rgba, decoded_image, encode_jpeg, image_error_text, jpeg_stream, resize_lanczos3,
};
use crate::error::RupdfError;
use crate::measure::{in_range, Micro};
use vstd::prelude::*;
use vstd::string::StringExecFns;

verus! {

/// Samples per inch at which raster images are embedded.
pub const TARGET_DPI: i64 = 300;

/// Quality of the encoded image, from 1 to 100.
pub const JPEG_QUALITY: u8 = 85;

/// An image object ready to be written.
#[derive(Debug)]
pub struct RasterObject {
    pub image_ref: i32,
    /// The encoded image.
    pub data: Vec<u8>,
    /// Its size in samples.
    pub width: u32,
    pub height: u32,
    pub bits_per_component: u8,
}

/// A channel over white: the channel weighted by the alpha, white by what
/// is left of it.
pub open spec fn over_white(channel: u8, alpha: u8) -> u8 {
    ((channel * alpha + 255 * (255 - alpha)) / 255) as u8
}

/// The RGB samples of RGBA samples composited over a white background.
pub open spec fn flattened(rgba: Seq<u8>) -> Seq<u8> {
    Seq::new(
        ((rgba.len() / 4) * 3) as nat,
        |i: int| over_white(rgba[(i / 3) * 4 + i % 3], rgba[(i / 3) * 4 + 3]),
    )
}

fn blend(channel: u8, alpha: u8) -> (r: u8)
    ensures
        r == over_white(channel, alpha),
{
    let c: u32 = channel as u32;
    let a: u32 = alpha as u32;
    assert(c * a <= 255 * 255) by (nonlinear_arith)
        requires
            c <= 255,
            a <= 255,
    ;
    let v: u32 = (c * a + 255 * (255 - a)) / 255;
    assert(c * a + 255 * (255 - a) <= 255 * 255) by (nonlinear_arith)
        requires
            c <= 255,
            a <= 255,
    ;
    v as u8
}

/// Composites RGBA samples over white, instead of dropping the alpha.
pub fn flatten_alpha_to_white(rgba: &Vec<u8>) -> (rgb: Vec<u8>)
    requires
        rgba@.len() % 4 == 0,
    ensures
        rgb@ == flattened(rgba@),
        rgb@.len() == (rgba@.len() / 4) * 3,
{
    let count: usize = rgba.len() / 4;
    assert(rgba@.len() == 4 * count);
    let mut rgb: Vec<u8> = Vec::new();
    let mut p: usize = 0;
    while p < count
        invariant
            p <= count,
            count == rgba@.len() / 4,
            rgba@.len() % 4 == 0,
            rgba@.len() == 4 * count,
            rgba.len() == rgba@.len(),
            rgb@.len() == p * 3,
            forall|i: int| 0 <= i < p * 3 ==> rgb@[i] == #[trigger] flattened(rgba@)[i],
        decreases count - p,
    {
        assert(p * 4 + 3 < rgba.len());
        let a = rgba[p * 4 + 3];
        let ghost before = rgb@;
        rgb.push(blend(rgba[p * 4], a));
        rgb.push(blend(rgba[p * 4 + 1], a));
        rgb.push(blend(rgba[p * 4 + 2], a));
        proof {
            assert forall|i: int| 0 <= i < (p + 1) * 3 implies rgb@[i] == #[trigger] flattened(
                rgba@,
            )[i] by {
                if i < p * 3 {
                    assert(rgb@[i] == before[i]);
                } else {
                    let k = i - p * 3;
                    assert(0 <= k < 3);
                    assert(i / 3 == p as int && i % 3 == k);
                }
            }
        }
        p += 1;
    }
    assert(rgb@ =~= flattened(rgba@));
    rgb
}

/// The number of samples that fit a length `points` at the target
/// resolution, rounded up: a point is a 72nd of an inch.
pub open spec fn target_samples(points: int) -> int {
    let n = (points * TARGET_DPI + 71_999_999) / 72_000_000;
    if n < 0 {
        0
    } else if n > u32::MAX {
        u32::MAX as int
    } else {
        n
    }
}

/// The nearest whole number to `a / b`, halves away from zero.
pub open spec fn rounded_ratio(a: int, b: int) -> int {
    (2 * a + b) / (2 * b)
}

/// The size in samples at which an image of `src_w` by `src_h` samples is
/// embedded for a displayed size of `max_w` by `max_h`: unchanged if it has
/// no more samples than the target in both directions; else scaled down by
/// the smaller of the two ratios of target to source, one ratio for both
/// sides, each side rounded. A side may round to no sample at all.
pub open spec fn embedded_size(src_w: u32, src_h: u32, max_w: int, max_h: int) -> (int, int) {
    let tw = target_samples(max_w);
    let th = target_samples(max_h);
    if src_w > tw || src_h > th {
        if tw * src_h <= th * src_w {
            (tw, rounded_ratio(src_h * tw, src_w as int))
        } else {
            (rounded_ratio(src_w * th, src_h as int), th)
        }
    } else {
        (src_w as int, src_h as int)
    }
}

/// An image that has no more samples than the target for its displayed
/// size is embedded unscaled, and no image is ever embedded with more
/// samples than it has.
pub proof fn lemma_never_upscaled(src_w: u32, src_h: u32, max_w: int, max_h: int)
    requires
        src_w > 0,
        src_h > 0,
    ensures
        src_w <= target_samples(max_w) && src_h <= target_samples(max_h) ==> embedded_size(
            src_w,
            src_h,
            max_w,
            max_h,
        ) == (src_w as int, src_h as int),
        0 <= embedded_size(src_w, src_h, max_w, max_h).0 <= src_w,
        0 <= embedded_size(src_w, src_h, max_w, max_h).1 <= src_h,
{
    let tw = target_samples(max_w);
    let th = target_samples(max_h);
    if src_w > tw || src_h > th {
        if tw * src_h <= th * src_w {
            // The width ratio is the smaller one, so it is below one.
            assert(tw < src_w) by (nonlinear_arith)
                requires
                    tw * src_h <= th * src_w,
                    src_w > tw || src_h > th,
                    tw >= 0,
                    th >= 0,
                    src_w > 0,
                    src_h > 0,
            ;
            lemma_rounded_ratio_bound(src_h as int, tw, src_w as int);
        } else {
            assert(th < src_h) by (nonlinear_arith)
                requires
                    tw * src_h > th * src_w,
                    src_w > tw || src_h > th,
                    tw >= 0,
                    th >= 0,
                    src_w > 0,
                    src_h > 0,
            ;
            lemma_rounded_ratio_bound(src_w as int, th, src_h as int);
        }
    }
}

/// A side scaled by a ratio below one, rounded, is no longer than the side.
proof fn lemma_rounded_ratio_bound(side: int, t: int, s: int)
    requires
        0 <= t < s,
        side >= 0,
    ensures
        0 <= rounded_ratio(side * t, s) <= side,
{
    let num = 2 * (side * t) + s;
    assert(0 <= side * t <= side * (s - 1)) by (nonlinear_arith)
        requires
            0 <= t <= s - 1,
            side >= 0,
    ;
    assert(side * (s - 1) == side * s - side) by (nonlinear_arith);
    assert(num <= (2 * s) * side + s) by (nonlinear_arith)
        requires
            num == 2 * (side * t) + s,
            side * t <= side * s - side,
            side >= 0,
    ;
    vstd::arithmetic::div_mod::lemma_div_pos_is_pos(num, 2 * s);
    vstd::arithmetic::div_mod::lemma_div_is_ordered(num, (2 * s) * side + s, 2 * s);
    vstd::arithmetic::div_mod::lemma_fundamental_div_mod_converse((2 * s) * side + s, 2 * s, side, s);
}

fn target_samples_exec(points: Micro) -> (n: u32)
    requires
        in_range(points as int),
    ensures
        n == target_samples(points as int),
{
    let scaled: i128 = points as i128 * 300 + 71_999_999;
    if scaled < 0 {
        proof {
            vstd::arithmetic::div_mod::lemma_div_is_ordered(scaled as int, -1, 72_000_000);
        }
        return 0;
    }
    let n: i128 = scaled / 72_000_000;
    if n > 0xffff_ffff {
        0xffff_ffff
    } else {
        n as u32
    }
}

fn rounded_ratio_exec(side: u32, t: u32, s: u32) -> (r: u32)
    requires
        0 <= t < s,
    ensures
        r == rounded_ratio(side * t, s as int),
        r <= side,
{
    proof {
        lemma_rounded_ratio_bound(side as int, t as int, s as int);
    }
    assert(side * t <= 0xffff_ffff * 0xffff_ffff) by (nonlinear_arith)
        requires
            side <= 0xffff_ffff,
            t <= 0xffff_ffff,
    ;
    let num: u128 = 2 * (side as u128 * t as u128) + s as u128;
    let q: u128 = num / (2 * s as u128);
    q as u32
}

/// The size in samples at which to embed an image.
pub fn compute_embedded_size(src_w: u32, src_h: u32, max_w: Micro, max_h: Micro) -> (r: (u32, u32))
    requires
        src_w > 0,
        src_h > 0,
        in_range(max_w as int),
        in_range(max_h as int),
    ensures
        (r.0 as int, r.1 as int) == embedded_size(src_w, src_h, max_w as int, max_h as int),
        r.0 <= src_w,
        r.1 <= src_h,
{
    proof {
        lemma_never_upscaled(src_w, src_h, max_w as int, max_h as int);
    }
    let tw = target_samples_exec(max_w);
    let th = target_samples_exec(max_h);
    if src_w > tw || src_h > th {
        assert(tw * src_h <= 0xffff_ffff * 0xffff_ffff && th * src_w <= 0xffff_ffff * 0xffff_ffff)
            by (nonlinear_arith)
            requires
                tw <= 0xffff_ffff,
                th <= 0xffff_ffff,
                src_w <= 0xffff_ffff,
                src_h <= 0xffff_ffff,
        ;
        if tw as u64 * src_h as u64 <= th as u64 * src_w as u64 {
            assert(tw < src_w) by (nonlinear_arith)
                requires
                    tw * src_h <= th * src_w,
                    src_w > tw || src_h > th,
                    src_w > 0,
                    src_h > 0,
            ;
            (tw, rounded_ratio_exec(src_h, tw, src_w))
        } else {
            assert(th < src_h) by (nonlinear_arith)
                requires
                    tw * src_h > th * src_w,
                    src_w > tw || src_h > th,
                    src_w > 0,
                    src_h > 0,
            ;
            (rounded_ratio_exec(src_w, th, src_h), th)
        }
    } else {
        (src_w, src_h)
    }
}

/// The image object made of samples that have been brought to their
/// embedded size, or the error for an encoder that refuses them.
pub fn encode_raster(
    pixels: &Vec<u8>,
    width: u32,
    height: u32,
    name: &str,
    image_ref: i32,
) -> (r: Result<RasterObject, RupdfError>)
    requires
        pixels@.len() == width * height * 3,
    ensures
        match jpeg_stream(pixels@, width, height, JPEG_QUALITY) {
            Some(stream) => r matches Ok(object) && object.data@ == stream && object.width == width
                && object.height == height && object.image_ref == image_ref
                && object.bits_per_component == 8,
            None => r matches Err(RupdfError::InvalidImage(n, detail)) && n@ == name@
                && "Failed to encode JPEG: "@.is_prefix_of(detail@),
        },
{
    match encode_jpeg(pixels.as_slice(), width, height, JPEG_QUALITY) {
        Ok(data) => Ok(RasterObject { image_ref, data, width, height, bits_per_component: 8 }),
        Err(e) => {
            let mut detail = String::from_str("Failed to encode JPEG: ");
            let text = image_error_text(&e);
            detail.append(text.as_str());
            Err(RupdfError::InvalidImage(String::from_str(name), detail))
        },
    }
}

/// Whether `object` is what embedding the decoded samples `rgba` of an
/// image of `src_w` by `src_h` samples for a displayed size of `max_w` by
/// `max_h` gives: an image of the embedded size; made, where that is the
/// size of the source, of the source's samples over white.
pub open spec fn embeds(
    object: RasterObject,
    rgba: Seq<u8>,
    src_w: u32,
    src_h: u32,
    max_w: int,
    max_h: int,
    image_ref: i32,
) -> bool {
    let size = embedded_size(src_w, src_h, max_w, max_h);
    &&& object.image_ref == image_ref
    &&& object.bits_per_component == 8
    &&& object.width == size.0
    &&& object.height == size.1
    &&& size == (src_w as int, src_h as int) ==> Some(object.data@) == jpeg_stream(
        flattened(rgba),
        src_w,
        src_h,
        JPEG_QUALITY,
    )
    &&& exists|pixels: Seq<u8>|
        pixels.len() == object.width * object.height * 3 && Some(object.data@) == jpeg_stream(
            pixels,
            object.width,
            object.height,
            JPEG_QUALITY,
        )
}

/// Embeds decoded samples: flattens them over white, scales them down if
/// the source has more samples than the displayed size needs, and encodes
/// them.
pub fn embed_decoded(
    rgba: &Vec<u8>,
    src_w: u32,
    src_h: u32,
    name: &str,
    max_w: Micro,
    max_h: Micro,
    image_ref: i32,
) -> (r: Result<RasterObject, RupdfError>)
    requires
        src_w > 0,
        src_h > 0,
        rgba@.len() == src_w * src_h * 4,
        in_range(max_w as int),
        in_range(max_h as int),
    ensures
        match r {
            Ok(object) => embeds(object, rgba@, src_w, src_h, max_w as int, max_h as int, image_ref),
            Err(e) => e matches RupdfError::InvalidImage(n, detail) && n@ == name@
                && "Failed to encode JPEG: "@.is_prefix_of(detail@),
        },
        embedded_size(src_w, src_h, max_w as int, max_h as int) == (src_w as int, src_h as int)
            ==> (r is Ok <==> jpeg_stream(flattened(rgba@), src_w, src_h, JPEG_QUALITY) is Some),
{
    assert((src_w * src_h * 4) % 4 == 0 && (src_w * src_h * 4) / 4 == src_w * src_h)
        by (nonlinear_arith);
    let rgb = flatten_alpha_to_white(rgba);
    let (w, h) = compute_embedded_size(src_w, src_h, max_w, max_h);
    let pixels = if w != src_w || h != src_h {
        resize_lanczos3(rgb, src_w, src_h, w, h)
    } else {
        rgb
    };
    encode_raster(&pixels, w, h, name, image_ref)
}

/// Whether embedding the image `data` for a displayed size of `max_w` by
/// `max_h` succeeds, where that can be told beforehand. Data that cannot
/// be decoded, or decodes to an image without samples, fails. An image
/// that is embedded unscaled succeeds exactly if the encoder accepts its
/// samples over white. Of an image that is scaled down nothing is told: it
/// depends on what the resampling gives.
pub open spec fn raster_verdict(data: Seq<u8>, max_w: int, max_h: int) -> Option<bool> {
    match decoded_image(data) {
        None => Some(false),
        Some((w, h, rgba)) => if w == 0 || h == 0 {
            Some(false)
        } else if embedded_size(w, h, max_w, max_h) == (w as int, h as int) {
            Some(jpeg_stream(flattened(rgba), w, h, JPEG_QUALITY) is Some)
        } else {
            None
        },
    }
}

/// Decodes an image and embeds it for a displayed size of `max_w` by
/// `max_h`. An image that has no more samples than the displayed size
/// needs is embedded unscaled, and that succeeds whenever the encoder
/// accepts its samples.
pub fn write_raster_image(
    data: &[u8],
    name: &str,
    max_w: Micro,
    max_h: Micro,
    image_ref: i32,
) -> (r: Result<RasterObject, RupdfError>)
    requires
        in_range(max_w as int),
        in_range(max_h as int),
    ensures
        match decoded_image(data@) {
            Some((src_w, src_h, rgba)) => if src_w > 0 && src_h > 0 {
                match r {
                    Ok(object) => embeds(
                        object,
                        rgba,
                        src_w,
                        src_h,
                        max_w as int,
                        max_h as int,
                        image_ref,
                    ),
                    Err(e) => e matches RupdfError::InvalidImage(n, detail) && n@ == name@
                        && "Failed to encode JPEG: "@.is_prefix_of(detail@),
                }
            } else {
                r matches Err(RupdfError::InvalidImage(n, detail)) && n@ == name@ && detail@
                    == "Failed to decode: image has no samples"@
            },
            None => r matches Err(RupdfError::InvalidImage(n, detail)) && n@ == name@
                && "Failed to decode: "@.is_prefix_of(detail@),
        },
        raster_verdict(data@, max_w as int, max_h as int) matches Some(succeeds) ==> (r is Ok
            <==> succeeds),
{
    match decode_rgba(data) {
        Ok((src_w, src_h, rgba)) => {
            if src_w == 0 || src_h == 0 {
                return Err(
                    RupdfError::InvalidImage(
                        String::from_str(name),
                        String::from_str("Failed to decode: image has no samples"),
                    ),
                );
            }
            embed_decoded(&rgba, src_w, src_h, name, max_w, max_h, image_ref)
        },
        Err(e) => {
            let mut detail = String::from_str("Failed to decode: ");
            let text = image_error_text(&e);
            detail.append(text.as_str());
            Err(RupdfError::InvalidImage(String::from_str(name), detail))
        },
    }
}

} // verus!
