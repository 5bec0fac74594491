//! The picture of the image window: decoded by `image` in its own colour type,
//! with the format taken from the file name's extension, and turned grey when
//! the viewer asks for the grey picture.

use vstd::prelude::*;
use image::{DynamicImage, ImageFormat};

verus! {

#[verifier::external_type_specification]
#[verifier::external_body]
pub struct ExDynamicImage(DynamicImage);

/// The colour type of a decoded image, one per variant of `DynamicImage`.
#[derive(Clone, Copy, Debug, PartialEq, Eq)]
pub enum ColorKind {
    L8,
    La8,
    Rgb8,
    Rgba8,
    L16,
    La16,
    Rgb16,
    Rgba16,
    Rgb32F,
    Rgba32F,
}

/// The colour type, width and height of an image.
pub uninterp spec fn image_shape(img: DynamicImage) -> (ColorKind, u32, u32);

/// The pixels of an image, row by row, as `DynamicImage::as_bytes` gives them.
pub uninterp spec fn image_bytes(img: DynamicImage) -> Seq<u8>;

/// What `image` decodes from encoded bytes in the format that the file name's
/// extension names: shape and pixels; `None` when the extension names no
/// format or the bytes do not decode in it.
pub uninterp spec fn decoded_image(bytes: Seq<u8>, file_name: Seq<char>) -> Option<
    ((ColorKind, u32, u32), Seq<u8>),
>;

/// What `DynamicImage::grayscale` makes of an image with this shape and these
/// pixels.
pub uninterp spec fn grey_of(shape: (ColorKind, u32, u32), bytes: Seq<u8>) -> (
    (ColorKind, u32, u32),
    Seq<u8>,
);

/// The 8-bit grey value of an 8-bit RGB pixel: `image`'s sRGB luma,
/// `(2126 r + 7152 g + 722 b) / 10000`.
pub open spec fn luma8(r: u8, g: u8, b: u8) -> int {
    (2126 * r + 7152 * g + 722 * b) / 10000
}

/// An 8-bit RGB image (three bytes per pixel) greys to 8-bit grey with `luma8`
/// per pixel.
pub open spec fn rgb8_greyed(
    shape: (ColorKind, u32, u32),
    b: Seq<u8>,
    out_shape: (ColorKind, u32, u32),
    out: Seq<u8>,
) -> bool {
    let (kind, w, h) = shape;
    kind == ColorKind::Rgb8 && b.len() == 3 * w * h ==> {
        &&& out_shape == (ColorKind::L8, w, h)
        &&& out.len() == w * h
        &&& forall|k: int|
            0 <= k < w * h ==> #[trigger] out[k] == luma8(b[3 * k], b[3 * k + 1], b[3 * k + 2])
    }
}

/// An 8-bit RGBA image (four bytes per pixel) greys to 8-bit grey-alpha with
/// `luma8` per pixel and the alpha kept.
pub open spec fn rgba8_greyed(
    shape: (ColorKind, u32, u32),
    b: Seq<u8>,
    out_shape: (ColorKind, u32, u32),
    out: Seq<u8>,
) -> bool {
    let (kind, w, h) = shape;
    kind == ColorKind::Rgba8 && b.len() == 4 * w * h ==> {
        &&& out_shape == (ColorKind::La8, w, h)
        &&& out.len() == 2 * w * h
        &&& forall|k: int|
            0 <= k < w * h ==> #[trigger] out[2 * k] == luma8(b[4 * k], b[4 * k + 1], b[4 * k + 2])
                && out[2 * k + 1] == b[4 * k + 3]
    }
}

/// `image::load_from_memory_with_format(bytes, ImageFormat::from_path(file_name)?)`,
/// which is how `image::open` decodes a file once it is read. Trusted: the
/// shape and pixels of the result are named `decoded_image(bytes, file_name)`.
#[verifier::external_body]
fn decode_image(bytes: &[u8], file_name: &str) -> (r: Option<DynamicImage>)
    ensures
        match r {
            Some(img) => decoded_image(bytes@, file_name@) == Some((image_shape(img), image_bytes(img))),
            None => decoded_image(bytes@, file_name@) is None,
        },
{
    match ImageFormat::from_path(file_name) {
        Ok(format) => image::load_from_memory_with_format(bytes, format).ok(),
        Err(_) => None,
    }
}

/// `DynamicImage::grayscale`. Trusted: the result is named `grey_of` of the
/// image's shape and pixels. As `image`'s source shows, an 8-bit grey image is
/// copied, an 8-bit RGB image becomes 8-bit grey with `luma8` per pixel, and
/// an 8-bit RGBA image becomes 8-bit grey-alpha with `luma8` and the alpha kept.
#[verifier::external_body]
fn grayscale(img: &DynamicImage) -> (g: DynamicImage)
    ensures
        (image_shape(g), image_bytes(g)) == grey_of(image_shape(*img), image_bytes(*img)),
        image_shape(*img).0 == ColorKind::L8 ==> image_shape(g) == image_shape(*img) && image_bytes(g)
            == image_bytes(*img),
        rgb8_greyed(image_shape(*img), image_bytes(*img), image_shape(g), image_bytes(g)),
        rgba8_greyed(image_shape(*img), image_bytes(*img), image_shape(g), image_bytes(g)),
{
    img.grayscale()
}

/// A decoded picture.
pub struct Picture {
    pub image: DynamicImage,
}

/// Decodes an image file's bytes in the format its name's extension names, as
/// `image::open` does: `None` when the extension names no format `image`
/// knows or the bytes do not decode.
pub fn load_picture(bytes: &[u8], file_name: &str) -> (r: Option<Picture>)
    ensures
        match r {
            Some(p) => decoded_image(bytes@, file_name@) == Some((image_shape(p.image), image_bytes(p.image))),
            None => decoded_image(bytes@, file_name@) is None,
        },
{
    match decode_image(bytes, file_name) {
        Some(image) => Some(Picture { image }),
        None => None,
    }
}

/// The grey version of a picture, in the colour type `image` greys it to.
pub fn grey_picture(p: &Picture) -> (g: Picture)
    ensures
        (image_shape(g.image), image_bytes(g.image)) == grey_of(image_shape(p.image), image_bytes(p.image)),
        image_shape(p.image).0 == ColorKind::L8 ==> image_shape(g.image) == image_shape(p.image)
            && image_bytes(g.image) == image_bytes(p.image),
        rgb8_greyed(image_shape(p.image), image_bytes(p.image), image_shape(g.image), image_bytes(g.image)),
        rgba8_greyed(image_shape(p.image), image_bytes(p.image), image_shape(g.image), image_bytes(g.image)),
{
    Picture { image: grayscale(&p.image) }
}

} // verus!
