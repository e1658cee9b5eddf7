//! Placing images on a page.
use crate::measure::{half, in_range, mul_div, scaled, Micro};
use crate::pdf::content::{Content, Op, OpModel};
use crate::pdf::textual::aligned_x;
use crate::resources::LoadedImage;
use crate::text::{decimal, push_decimal};
use crate::types::{ImageElement, TextAlign};
use vstd::prelude::*;
use vstd::string::StringExecFns;

verus! {

/// The size at which an image with the native size `src_w` by `src_h` is
/// shown: as asked if both sides are given, even if that stretches it;
/// with one side given the other keeps the aspect ratio; with none the
/// native size.
pub open spec fn image_dimensions_spec(src_w: int, src_h: int, w: Option<Micro>, h: Option<Micro>) -> (
    int,
    int,
) {
    match (w, h) {
        (Some(w), Some(h)) => (w as int, h as int),
        (Some(w), None) => (w as int, scaled(w as int, src_h, src_w)),
        (None, Some(h)) => (scaled(h as int, src_w, src_h), h as int),
        (None, None) => (src_w, src_h),
    }
}

/// The size at which an image is shown.
pub fn compute_image_dimensions(src_w: Micro, src_h: Micro, w: Option<Micro>, h: Option<Micro>) -> (r:
    (Micro, Micro))
    requires
        src_w > 0,
        src_h > 0,
        in_range(src_w as int),
        in_range(src_h as int),
        w matches Some(v) ==> in_range(v as int),
        h matches Some(v) ==> in_range(v as int),
    ensures
        (r.0 as int, r.1 as int) == image_dimensions_spec(src_w as int, src_h as int, w, h),
        in_range(r.0 as int),
        in_range(r.1 as int),
{
    match (w, h) {
        (Some(w), Some(h)) => (w, h),
        (Some(w), None) => (w, mul_div(w, src_h, src_w)),
        (None, Some(h)) => (mul_div(h, src_w, src_h), h),
        (None, None) => (src_w, src_h),
    }
}

/// A length in whole points: the nearest whole number, and of two
/// equally near ones the even one.
pub open spec fn rounded_points(v: int) -> int {
    let q = v / 1_000_000;
    let r = v % 1_000_000;
    if r > 500_000 || (r == 500_000 && q % 2 != 0) {
        q + 1
    } else {
        q
    }
}

/// The numeral of a whole number, with a minus sign if it is negative.
pub open spec fn signed_decimal(n: int) -> Seq<char> {
    if n < 0 {
        seq!['-'] + decimal((-n) as nat)
    } else {
        decimal(n as nat)
    }
}

/// The name of a raster image embedded for the displayed size `w` by `h`:
/// the name of the image, an underscore, and the size in whole points with
/// an `x` between its sides.
pub open spec fn image_size_key_spec(image_ref: Seq<char>, w: int, h: int) -> Seq<char> {
    image_ref + seq!['_'] + signed_decimal(rounded_points(w)) + seq!['x'] + signed_decimal(
        rounded_points(h),
    )
}

fn push_rounded(s: &mut String, v: Micro)
    requires
        in_range(v as int),
    ensures
        final(s)@ == old(s)@ + signed_decimal(rounded_points(v as int)),
{
    let m: i64 = if v < 0 {
        -v
    } else {
        v
    };
    // Floor and remainder of `v`, from those of its magnitude.
    let qm: i64 = m / 1_000_000;
    let rm: i64 = m % 1_000_000;
    let (q, r): (i64, i64) = if v >= 0 || rm == 0 {
        if v >= 0 {
            (qm, rm)
        } else {
            (-qm, 0)
        }
    } else {
        (-qm - 1, 1_000_000 - rm)
    };
    proof {
        vstd::arithmetic::div_mod::lemma_fundamental_div_mod_converse(
            v as int,
            1_000_000,
            q as int,
            r as int,
        );
    }
    let odd: bool = if q >= 0 {
        q % 2 != 0
    } else {
        (-q) % 2 != 0
    };
    assert(odd == ((q as int) % 2 != 0)) by {
        if q < 0 {
            let n = -q as int;
            vstd::arithmetic::div_mod::lemma_fundamental_div_mod(n, 2);
            vstd::arithmetic::div_mod::lemma_fundamental_div_mod(q as int, 2);
        }
    }
    let n: i64 = if r > 500_000 || (r == 500_000 && odd) {
        q + 1
    } else {
        q
    };
    if n < 0 {
        s.push('-');
        push_decimal(s, (-n) as u64);
    } else {
        push_decimal(s, n as u64);
    }
    assert(s@ =~= old(s)@ + signed_decimal(rounded_points(v as int)));
}

/// The name of a raster image embedded for a displayed size.
pub fn image_size_key(image_ref: &str, w: Micro, h: Micro) -> (key: String)
    requires
        in_range(w as int),
        in_range(h as int),
    ensures
        key@ == image_size_key_spec(image_ref@, w as int, h as int),
{
    let mut key = String::from_str(image_ref);
    key.push('_');
    push_rounded(&mut key, w);
    key.push('x');
    push_rounded(&mut key, h);
    assert(key@ =~= image_size_key_spec(image_ref@, w as int, h as int));
    key
}

/// The name under which an image shown at `w` by `h` is embedded: a
/// vector image is embedded once, under its own name; a raster image once
/// for every displayed size.
pub open spec fn usage_key_spec(image: LoadedImage, image_ref: Seq<char>, w: int, h: int) -> Seq<
    char,
> {
    match image {
        LoadedImage::Svg { .. } => image_ref,
        LoadedImage::Raster { .. } => image_size_key_spec(image_ref, w, h),
    }
}

/// The name under which an image shown at `w` by `h` is embedded.
pub fn usage_key(image: &LoadedImage, image_ref: &str, w: Micro, h: Micro) -> (key: String)
    requires
        in_range(w as int),
        in_range(h as int),
    ensures
        key@ == usage_key_spec(*image, image_ref@, w as int, h as int),
{
    match image {
        LoadedImage::Svg { .. } => String::from_str(image_ref),
        LoadedImage::Raster { .. } => image_size_key(image_ref, w, h),
    }
}

/// The transformation that places an image of the final size `w` by `h`
/// with its lower left corner at (`x`, `y`): a vector image is scaled from
/// its native size; a raster image fills the unit square, so its size is
/// the scale.
pub open spec fn placement_op(image: LoadedImage, w: int, h: int, x: int, y: int) -> OpModel {
    match image {
        LoadedImage::Svg { tree, width, height } => OpModel::Transform(
            scaled(w, 1_000_000, width as int),
            0,
            0,
            scaled(h, 1_000_000, height as int),
            x,
            y,
        ),
        LoadedImage::Raster { .. } => OpModel::Transform(w, 0, 0, h, x, y),
    }
}

/// The program of an image element showing `image`.
pub open spec fn image_ops(img: ImageElement, page_height: int, image: LoadedImage) -> Seq<OpModel> {
    let native = image.dimensions_spec();
    let size = image_dimensions_spec(native.0, native.1, img.w, img.h);
    let x = aligned_x(img.align, img.x as int, size.0);
    let y = page_height - img.y - size.1;
    seq![
        OpModel::SaveState,
        placement_op(image, size.0, size.1, x, y),
        OpModel::XObject(usage_key_spec(image, img.image_ref@, size.0, size.1)),
        OpModel::RestoreState,
    ]
}

/// Appends the program of an image element.
pub fn render_image(content: &mut Content, img: &ImageElement, page_height: Micro, image: &LoadedImage)
    requires
        img.wf(),
        image.wf(),
        in_range(page_height as int),
    ensures
        final(content)@ == old(content)@ + image_ops(*img, page_height as int, *image),
{
    content.push(Op::SaveState);
    let (src_w, src_h) = image.dimensions();
    let (final_w, final_h) = compute_image_dimensions(src_w, src_h, img.w, img.h);
    let render_x: Micro = match img.align {
        TextAlign::Left => img.x,
        TextAlign::Center => img.x - half(final_w),
        TextAlign::Right => img.x - final_w,
    };
    let pdf_y: Micro = page_height - img.y - final_h;
    match image {
        LoadedImage::Svg { tree, width, height } => {
            let scale_x = mul_div(final_w, 1_000_000, *width);
            let scale_y = mul_div(final_h, 1_000_000, *height);
            content.push(Op::Transform(scale_x, 0, 0, scale_y, render_x, pdf_y));
        },
        LoadedImage::Raster { .. } => {
            content.push(Op::Transform(final_w, 0, 0, final_h, render_x, pdf_y));
        },
    }
    let name = usage_key(image, img.image_ref.as_str(), final_w, final_h);
    content.push(Op::XObject(name));
    content.push(Op::RestoreState);
    assert(content@ =~= old(content)@ + image_ops(*img, page_height as int, *image));
}

} // verus!
