use rupdf::elements::svg::{Node, Transform, Tree};
use rupdf::error::RupdfError;
use rupdf::measure::points;
use rupdf::pdf::content::{Content, Op};
use rupdf::pdf::images::{compute_image_dimensions, image_size_key, render_image, usage_key};
use rupdf::raster::{
    compute_embedded_size, embed_decoded, flatten_alpha_to_white, write_raster_image,
};
use rupdf::resources::LoadedImage;
use rupdf::types::{ImageElement, TextAlign};
use std::io::Cursor;

fn png(width: u32, height: u32, pixel: [u8; 4]) -> Vec<u8> {
    let buffer = image::RgbaImage::from_pixel(width, height, image::Rgba(pixel));
    let mut data = Vec::new();
    image::DynamicImage::ImageRgba8(buffer)
        .write_to(&mut Cursor::new(&mut data), image::ImageOutputFormat::Png)
        .unwrap();
    data
}

fn empty_tree(width: i64, height: i64) -> Tree {
    Tree {
        root: Node::Group { transform: Transform::identity(), children: vec![] },
        width,
        height,
    }
}

#[test]
fn vector_images_are_sniffed_by_their_first_tag() {
    assert!(LoadedImage::is_svg(b"<svg xmlns='http://www.w3.org/2000/svg'/>"));
    assert!(LoadedImage::is_svg(b"  \n\t<?xml version='1.0'?><svg/>"));
    assert!(LoadedImage::is_svg(b"<!DOCTYPE svg PUBLIC '-//W3C//DTD SVG 1.1//EN'>"));
    assert!(LoadedImage::is_svg("\u{3000}<svg/>".as_bytes()));
    assert!(!LoadedImage::is_svg(b"<html><svg/></html>"));
    assert!(!LoadedImage::is_svg(b""));
    assert!(!LoadedImage::is_svg(b"<sv"));
    // Bytes that are no text are no vector image.
    assert!(!LoadedImage::is_svg(b"<svg\xff"));
    assert!(!LoadedImage::is_svg(&png(1, 1, [0, 0, 0, 255])));
}

#[test]
fn a_raster_image_is_loaded_with_its_size() {
    let data = png(4, 3, [1, 2, 3, 255]);
    match LoadedImage::load("photo", data.clone(), None) {
        Ok(LoadedImage::Raster { data: kept, width, height }) => {
            assert_eq!(kept, data);
            assert_eq!((width, height), (4, 3));
        }
        _ => panic!("expected a raster image"),
    }
    let image = LoadedImage::load("photo", data, None).unwrap();
    assert_eq!(image.dimensions(), (points(4), points(3)));
}

#[test]
fn data_that_is_no_image_is_invalid() {
    match LoadedImage::load("junk", vec![1, 2, 3, 4], None) {
        Err(RupdfError::InvalidImage(name, detail)) => {
            assert_eq!(name, "junk");
            assert!(detail.starts_with("Failed to decode image: "));
        }
        _ => panic!("expected an invalid image"),
    }
}

#[test]
fn a_vector_image_needs_its_tree() {
    let data = b"<svg/>".to_vec();
    let loaded = LoadedImage::load("logo", data.clone(), Some(Ok(empty_tree(points(20), points(10)))));
    assert_eq!(loaded.unwrap().dimensions(), (points(20), points(10)));
    assert!(matches!(
        LoadedImage::load("logo", data.clone(), Some(Err("unexpected end".to_string()))),
        Err(RupdfError::InvalidImage(name, detail))
            if name == "logo" && detail == "Failed to parse SVG: unexpected end"
    ));
    assert!(matches!(
        LoadedImage::load("logo", data.clone(), None),
        Err(RupdfError::InvalidImage(_, detail)) if detail == "Failed to parse SVG: not parsed"
    ));
    assert!(matches!(
        LoadedImage::load("logo", data, Some(Ok(empty_tree(0, points(10))))),
        Err(RupdfError::InvalidImage(_, detail))
            if detail == "Failed to parse SVG: size out of range"
    ));
}

#[test]
fn one_given_side_keeps_the_aspect_ratio() {
    let (w, h) = (points(200), points(100));
    assert_eq!(
        compute_image_dimensions(w, h, Some(points(50)), Some(points(80))),
        (points(50), points(80))
    );
    assert_eq!(compute_image_dimensions(w, h, Some(points(50)), None), (points(50), points(25)));
    assert_eq!(compute_image_dimensions(w, h, None, Some(points(30))), (points(60), points(30)));
    assert_eq!(compute_image_dimensions(w, h, None, None), (w, h));
}

#[test]
fn raster_names_carry_the_size_in_whole_points() {
    assert_eq!(image_size_key("photo", points(100), points(50)), "photo_100x50");
    assert_eq!(image_size_key("photo", 100_400_000, 49_600_000), "photo_100x50");
    // Halves go to the even neighbour.
    assert_eq!(image_size_key("p", 2_500_000, 3_500_000), "p_2x4");
    assert_eq!(image_size_key("p", 500_000, -1_500_000), "p_0x-2");
    assert_eq!(image_size_key("p", -2_500_000, -400_000), "p_-2x0");
    let raster = LoadedImage::Raster { data: vec![], width: 2, height: 2 };
    assert_eq!(usage_key(&raster, "photo", points(7), points(9)), "photo_7x9");
    let vector = LoadedImage::Svg { tree: empty_tree(1, 1), width: 1, height: 1 };
    assert_eq!(usage_key(&vector, "logo", points(7), points(9)), "logo");
}

fn element(w: Option<i64>, h: Option<i64>, align: TextAlign) -> ImageElement {
    ImageElement { x: points(100), y: points(200), w, h, image_ref: "pic".to_string(), align }
}

#[test]
fn a_raster_image_fills_the_unit_square() {
    let image = LoadedImage::Raster { data: vec![], width: 200, height: 100 };
    let mut content = Content::new();
    render_image(
        &mut content,
        &element(Some(points(50)), None, TextAlign::Center),
        points(792),
        &image,
    );
    assert_eq!(
        content.finish(),
        vec![
            Op::SaveState,
            Op::Transform(points(50), 0, 0, points(25), points(75), points(567)),
            Op::XObject("pic_50x25".to_string()),
            Op::RestoreState,
        ]
    );
}

#[test]
fn a_vector_image_is_scaled_from_its_native_size() {
    let image = LoadedImage::Svg {
        tree: empty_tree(points(20), points(10)),
        width: points(20),
        height: points(10),
    };
    let mut content = Content::new();
    render_image(
        &mut content,
        &element(Some(points(50)), Some(points(5)), TextAlign::Right),
        points(792),
        &image,
    );
    assert_eq!(
        content.finish(),
        vec![
            Op::SaveState,
            Op::Transform(2_500_000, 0, 0, 500_000, points(50), points(587)),
            Op::XObject("pic".to_string()),
            Op::RestoreState,
        ]
    );
}

#[test]
fn transparency_is_composited_over_white() {
    let rgba = vec![10, 20, 30, 255, 10, 20, 30, 0, 100, 0, 255, 128];
    // Half of 100 and half of white: (100 * 128 + 255 * 127) / 255.
    assert_eq!(
        flatten_alpha_to_white(&rgba),
        vec![10, 20, 30, 255, 255, 255, 177, 127, 255]
    );
}

#[test]
fn the_target_is_three_hundred_samples_an_inch() {
    // A displayed inch holds 300 samples.
    assert_eq!(compute_embedded_size(600, 600, points(72), points(72)), (300, 300));
    assert_eq!(compute_embedded_size(300, 300, points(72), points(72)), (300, 300));
    // Below the target nothing is scaled, and nothing is ever scaled up.
    assert_eq!(compute_embedded_size(100, 50, points(72), points(72)), (100, 50));
    // The smaller ratio decides: 1200 by 300 samples into 300 by 300.
    assert_eq!(compute_embedded_size(1200, 300, points(72), points(72)), (300, 75));
    assert_eq!(compute_embedded_size(300, 1200, points(72), points(72)), (75, 300));
    // Targets round up: 10 points need 41.67 samples.
    assert_eq!(compute_embedded_size(100, 100, points(10), points(10)), (42, 42));
    // A side may round to nothing: one ratio serves both sides.
    assert_eq!(compute_embedded_size(1000, 1, points(1), points(1)), (5, 0));
    assert_eq!(compute_embedded_size(10000, 1, 2_400_000, points(72)), (10, 0));
    assert_eq!(compute_embedded_size(10, 10, 0, 0), (0, 0));
    assert_eq!(compute_embedded_size(10, 10, points(-5), points(72)), (0, 0));
}

#[test]
fn a_side_of_no_samples_is_embedded_as_it_is() {
    let rgba = vec![255u8; 10000 * 4];
    let object = embed_decoded(&rgba, 10000, 1, "strip", 2_400_000, points(72), 3).unwrap();
    assert_eq!((object.width, object.height), (10, 0));
    assert_eq!(&object.data[..2], &[0xff, 0xd8]);
}

fn jpeg_size(data: &[u8]) -> (u32, u32) {
    let decoded = image::load_from_memory(data).unwrap();
    (decoded.width(), decoded.height())
}

#[test]
fn a_small_image_is_embedded_unscaled() {
    let object = write_raster_image(&png(8, 6, [9, 9, 9, 255]), "photo", points(72), points(72), 5)
        .unwrap();
    assert_eq!((object.width, object.height), (8, 6));
    assert_eq!(object.image_ref, 5);
    assert_eq!(object.bits_per_component, 8);
    assert_eq!(&object.data[..2], &[0xff, 0xd8]);
    assert_eq!(jpeg_size(&object.data), (8, 6));
}

#[test]
fn a_large_image_is_scaled_down() {
    let object = write_raster_image(&png(120, 60, [9, 9, 9, 255]), "photo", points(12), points(12), 5)
        .unwrap();
    assert_eq!((object.width, object.height), (50, 25));
    assert_eq!(jpeg_size(&object.data), (50, 25));
}

#[test]
fn transparent_samples_are_embedded_white() {
    let rgba = vec![0u8; 16 * 16 * 4];
    let object = embed_decoded(&rgba, 16, 16, "photo", points(72), points(72), 1).unwrap();
    let decoded = image::load_from_memory(&object.data).unwrap().to_rgb8();
    assert!(decoded.pixels().all(|p| p.0.iter().all(|c| *c > 250)));
}

#[test]
fn an_image_too_large_for_the_encoder_is_invalid() {
    let rgba = vec![0u8; 70_000 * 4];
    match embed_decoded(&rgba, 70_000, 1, "wide", points(100_000), points(100), 1) {
        Err(RupdfError::InvalidImage(name, detail)) => {
            assert_eq!(name, "wide");
            assert!(detail.starts_with("Failed to encode JPEG: "));
        }
        _ => panic!("expected an invalid image"),
    }
}

#[test]
fn undecodable_data_cannot_be_embedded() {
    assert!(matches!(
        write_raster_image(&[0, 1, 2], "junk", points(10), points(10), 1),
        Err(RupdfError::InvalidImage(name, detail))
            if name == "junk" && detail.starts_with("Failed to decode: ")
    ));
}
