use std::io::Cursor;

use playground::picture::{grey_picture, load_picture};

fn encode(img: image::DynamicImage) -> Vec<u8> {
    let mut out = Cursor::new(Vec::new());
    img.write_to(&mut out, image::ImageFormat::Png).unwrap();
    out.into_inner()
}

fn rgb_png() -> Vec<u8> {
    encode(image::DynamicImage::ImageRgb8(image::RgbImage::from_raw(2, 1, vec![255, 0, 0, 10, 200, 30]).unwrap()))
}

#[test]
fn decodes_in_its_own_colour_type_and_greys_like_image() {
    let bytes = rgb_png();
    let p = load_picture(&bytes, "bus.png").unwrap();
    assert_eq!(p.image.as_bytes(), &[255, 0, 0, 10, 200, 30]);
    let g = grey_picture(&p);
    let expected = image::load_from_memory(&bytes).unwrap().grayscale();
    assert_eq!(g.image, expected);
    // (2126 r + 7152 g + 722 b) / 10000 per pixel
    assert_eq!(g.image.as_bytes(), &[(2126 * 255 / 10000) as u8, ((2126 * 10 + 7152 * 200 + 722 * 30) / 10000) as u8]);
}

#[test]
fn keeps_the_alpha_channel() {
    let rgba = image::RgbaImage::from_raw(1, 1, vec![0, 255, 0, 77]).unwrap();
    let bytes = encode(image::DynamicImage::ImageRgba8(rgba));
    let p = load_picture(&bytes, "x.png").unwrap();
    assert!(matches!(p.image, image::DynamicImage::ImageRgba8(_)));
    let g = grey_picture(&p);
    assert!(matches!(g.image, image::DynamicImage::ImageLumaA8(_)));
    assert_eq!(g.image.as_bytes(), &[(7152 * 255 / 10000) as u8, 77]);
}

#[test]
fn format_comes_from_the_extension() {
    let bytes = rgb_png();
    assert!(load_picture(&bytes, "bus.jpg").is_none());
    assert!(load_picture(&bytes, "bus").is_none());
    assert!(load_picture(b"not an image", "bus.png").is_none());
}
