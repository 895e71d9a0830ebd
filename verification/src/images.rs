//! Covers: raw image bytes are decoded, made smaller and written as PNG.
//!
//! Pixels come out of floating-point filters and of decoders that choose their code by
//! the processor, so the same bytes need not give the same pixels on every machine. The
//! contracts say which outcomes are possible, and what holds of all of them.

use crate::app::sources;
use crate::app::sources::POSTER_MAX;
use crate::errors::{Error, Fault, Result};
use crate::text;
use image::DynamicImage;
use vstd::prelude::*;

verus! {

#[verifier::external_type_specification]
#[verifier::external_body]
pub struct ExDynamicImage(image::DynamicImage);

/// The width and height of an image, in pixels.
pub uninterp spec fn image_size(img: image::DynamicImage) -> (u32, u32);

/// `DynamicImage::width`: the width of the image.
pub assume_specification[ image::DynamicImage::width ](img: &image::DynamicImage) -> (r: u32)
    ensures
        r == image_size(*img).0,
;

/// `DynamicImage::height`: the height of the image.
pub assume_specification[ image::DynamicImage::height ](img: &image::DynamicImage) -> (r: u32)
    ensures
        r == image_size(*img).1,
;

/// How pixels are sampled.
#[derive(Debug, Clone, Copy, PartialEq, Eq, Structural)]
pub enum Filter {
    /// Linear, fast.
    Triangle,
    /// Lanczos with window 3, sharp.
    Lanczos3,
}

/// Decoding the bytes may give that image, or fail with that message.
pub uninterp spec fn may_decode(
    bytes: Seq<u8>,
    outcome: std::result::Result<image::DynamicImage, Seq<char>>,
) -> bool;

/// `image::load_from_memory`, which guesses the format and decodes, with the error as its
/// message. The outcome is a possible one of these bytes; which ones are is left unstated,
/// and the pixels of a JPEG may depend on the processor.
#[verifier::external_body]
fn decode_image(bytes: &[u8]) -> (r: std::result::Result<DynamicImage, String>)
    ensures
        match r {
            Ok(img) => may_decode(bytes@, Ok(img)),
            Err(m) => may_decode(bytes@, Err(m@)),
        },
{
    image::load_from_memory(bytes).map_err(|e| e.to_string())
}

/// Making the image smaller so that neither side is longer than `max` may give that one.
pub uninterp spec fn may_shrink(
    img: image::DynamicImage,
    max: u32,
    out: image::DynamicImage,
) -> bool;

/// `DynamicImage::resize` with the `Lanczos3` filter and the same bound for both sides:
/// the image fits, and its longer side is as long as is allowed. The length of the other
/// side and the pixels are left unstated; the filter uses a floating-point sine.
#[verifier::external_body]
fn shrink_image(img: &DynamicImage, max: u32) -> (r: DynamicImage)
    requires
        max > 0,
        image_size(*img).0 > max || image_size(*img).1 > max,
    ensures
        may_shrink(*img, max, r),
        0 < image_size(r).0 <= max,
        0 < image_size(r).1 <= max,
        image_size(r).0 == max || image_size(r).1 == max,
{
    img.resize(max, max, image::imageops::FilterType::Lanczos3)
}

/// Scaling the image to fill a box, and cropping what stands out, may give that one.
pub uninterp spec fn may_fill(
    img: image::DynamicImage,
    width: u32,
    height: u32,
    filter: Filter,
    out: image::DynamicImage,
) -> bool;

/// An image with pixels can be scaled to fill a box with pixels: what is cropped
/// afterwards has no side of 2^32 pixels or more.
pub open spec fn fillable(size: (u32, u32), width: u32, height: u32) -> bool {
    &&& size.0 > 0 && size.1 > 0 && width > 0 && height > 0
    &&& size.1 * width < u32::MAX * size.0
    &&& size.0 * height < u32::MAX * size.1
}

/// `DynamicImage::resize_to_fill`: the image has the size of the box. The pixels are left
/// unstated. It panics where the scaled image has a side that is too long, which is left
/// out.
#[verifier::external_body]
fn fill_image(img: &DynamicImage, width: u32, height: u32, filter: Filter) -> (r: DynamicImage)
    requires
        fillable(image_size(*img), width, height),
    ensures
        may_fill(*img, width, height, filter, r),
        image_size(r) == (width, height),
{
    let filter = match filter {
        Filter::Triangle => image::imageops::FilterType::Triangle,
        Filter::Lanczos3 => image::imageops::FilterType::Lanczos3,
    };
    img.resize_to_fill(width, height, filter)
}

/// Writing the image as PNG may give those bytes, or fail with that message.
pub uninterp spec fn may_encode(
    img: image::DynamicImage,
    outcome: std::result::Result<Seq<u8>, Seq<char>>,
) -> bool;

/// The four bytes at position `i` write the number, the highest byte first.
pub open spec fn big_endian(v: Seq<u8>, i: int, n: u32) -> bool {
    v[i] * 0x100_0000 + v[i + 1] * 0x1_0000 + v[i + 2] * 0x100 + v[i + 3] == n
}

/// The bytes begin as those of a PNG of that size: the signature, and the header chunk
/// with the width and the height.
pub open spec fn png_of_size(v: Seq<u8>, size: (u32, u32)) -> bool {
    &&& v.len() >= 24
    &&& v.take(16) == seq![
        0x89u8,
        0x50,
        0x4e,
        0x47,
        0x0d,
        0x0a,
        0x1a,
        0x0a,
        0,
        0,
        0,
        13,
        0x49,
        0x48,
        0x44,
        0x52,
    ]
    &&& big_endian(v, 16, size.0)
    &&& big_endian(v, 20, size.1)
}

/// `DynamicImage::write_to` with the PNG format, into memory, with the error as its
/// message: what is written is a PNG of the image's size. How the pixels are packed is left
/// unstated.
#[verifier::external_body]
fn encode_png(img: &DynamicImage) -> (r: std::result::Result<Vec<u8>, String>)
    ensures
        match r {
            Ok(v) => may_encode(*img, Ok(v@)) && png_of_size(v@, image_size(*img)),
            Err(m) => may_encode(*img, Err(m@)),
        },
{
    let mut out = std::io::Cursor::new(Vec::new());
    img.write_to(&mut out, image::ImageFormat::Png).map_err(|e| e.to_string())?;
    Ok(out.into_inner())
}

/// Whether an image can be scaled to fill a box.
fn can_fill(img: &DynamicImage, width: u32, height: u32) -> (r: bool)
    ensures
        r == fillable(image_size(*img), width, height),
{
    let (w, h) = (img.width(), img.height());
    if w == 0 || h == 0 || width == 0 || height == 0 {
        return false;
    }
    assert(h * width <= 0xffff_ffff * 0xffff_ffff && w * height <= 0xffff_ffff * 0xffff_ffff && w
        * 0xffff_ffff <= 0xffff_ffff * 0xffff_ffff && h * 0xffff_ffff <= 0xffff_ffff * 0xffff_ffff)
        by (nonlinear_arith)
        requires
            w <= 0xffff_ffff,
            h <= 0xffff_ffff,
            width <= 0xffff_ffff,
            height <= 0xffff_ffff,
    ;
    (h as u64) * (width as u64) < 0xffff_ffff * (w as u64) && (w as u64) * (height as u64)
        < 0xffff_ffff * (h as u64)
}

/// The width of a browse thumbnail, in pixels.
pub const THUMB_WIDTH: u32 = 120;

/// The height of a browse thumbnail, in pixels.
pub const THUMB_HEIGHT: u32 = 180;

/// What becomes of a decoded cover as a thumbnail: it fills the box and is written as PNG,
/// or the failure is told.
pub open spec fn thumb_of(
    img: DynamicImage,
    r: std::result::Result<Seq<u8>, Fault>,
) -> bool {
    if !fillable(image_size(img), THUMB_WIDTH, THUMB_HEIGHT) {
        r == Err::<Seq<u8>, Fault>(Fault::Resolve("thumb task: cover cannot be scaled"@))
    } else {
        exists|small: DynamicImage| #[trigger]
            may_fill(img, THUMB_WIDTH, THUMB_HEIGHT, Filter::Triangle, small) && match r {
                Ok(png) => may_encode(small, Ok(png)) && png_of_size(
                    png,
                    (THUMB_WIDTH, THUMB_HEIGHT),
                ),
                Err(f) => exists|m: Seq<char>| #[trigger]
                    may_encode(small, Err(m)) && f == Fault::Resolve("thumb encode: "@ + m),
            }
    }
}

/// The bytes of a result, and its error as a fault.
pub open spec fn bytes_or_fault(r: Result<Vec<u8>>) -> std::result::Result<Seq<u8>, Fault> {
    match r {
        Ok(v) => Ok(v@),
        Err(e) => Err(e@),
    }
}

/// Downscales a cover that was decoded, or was not, to a small PNG.
pub fn thumb_from(decoded: std::result::Result<DynamicImage, String>) -> (r: Result<Vec<u8>>)
    ensures
        match decoded {
            Ok(img) => thumb_of(img, bytes_or_fault(r)),
            Err(m) => r matches Err(e) && e@ == Fault::Resolve("thumb decode: "@ + m@),
        },
{
    let img = match decoded {
        Ok(img) => img,
        Err(m) => return Err(Error::Resolve(text::cat("thumb decode: ", m.as_str()))),
    };
    if !can_fill(&img, THUMB_WIDTH, THUMB_HEIGHT) {
        return Err(Error::Resolve("thumb task: cover cannot be scaled".to_string()));
    }
    let small = fill_image(&img, THUMB_WIDTH, THUMB_HEIGHT, Filter::Triangle);
    match encode_png(&small) {
        Ok(png) => Ok(png),
        Err(m) => Err(Error::Resolve(text::cat("thumb encode: ", m.as_str()))),
    }
}

/// Decode and downscale a browse thumbnail to a small PNG. Small + low-res is fine for row
/// thumbnails and keeps it fast.
pub fn thumb_png(bytes: &[u8]) -> (r: Result<Vec<u8>>)
    ensures
        (exists|m: Seq<char>| #[trigger]
            may_decode(bytes@, Err(m)) && bytes_or_fault(r) == Err::<Seq<u8>, Fault>(
                Fault::Resolve("thumb decode: "@ + m),
            )) || (exists|img: DynamicImage| #[trigger]
            may_decode(bytes@, Ok(img)) && thumb_of(img, bytes_or_fault(r))),
        r matches Ok(png) ==> png_of_size(png@, (THUMB_WIDTH, THUMB_HEIGHT)),
{
    thumb_from(decode_image(bytes))
}

/// What becomes of a decoded poster: it is kept as it is, unless it is too large; then it
/// is made smaller.
pub open spec fn poster_of(img: DynamicImage, out: DynamicImage) -> bool {
    if image_size(img).0 > POSTER_MAX || image_size(img).1 > POSTER_MAX {
        may_shrink(img, POSTER_MAX, out)
    } else {
        out == img
    }
}

/// A thumbnail is a PNG of 120 by 180 pixels, made from the decoded cover; a cover that
/// cannot be scaled, or not be written, gives an error that says so.
pub proof fn law_thumb(img: DynamicImage, r: std::result::Result<Seq<u8>, Fault>)
    requires
        thumb_of(img, r),
    ensures
        r matches Ok(png) ==> png_of_size(png, (120u32, 180u32)),
        r matches Ok(png) ==> exists|small: DynamicImage| #[trigger]
            may_fill(img, 120, 180, Filter::Triangle, small) && may_encode(small, Ok(png)),
        r matches Err(f) ==> f is Resolve,
{
}

/// A poster of at most 900 pixels on either side is kept as it is, and a larger one is
/// made smaller to that.
pub proof fn law_poster(img: DynamicImage, out: DynamicImage)
    requires
        poster_of(img, out),
    ensures
        image_size(img).0 <= 900 && image_size(img).1 <= 900 ==> out == img,
        image_size(img).0 > 900 || image_size(img).1 > 900 ==> may_shrink(img, 900, out),
{
}

/// Caps a poster that was decoded, or was not, to a sane max so a huge source doesn't blow
/// up memory.
pub fn poster_from(decoded: std::result::Result<DynamicImage, String>) -> (r: Result<DynamicImage>)
    ensures
        match (decoded, r) {
            (Ok(img), Ok(out)) => poster_of(img, out) && image_size(out).0 <= POSTER_MAX
                && image_size(out).1 <= POSTER_MAX,
            (Err(m), Err(e)) => e@ == Fault::Resolve("poster decode: "@ + m@),
            _ => false,
        },
{
    match decoded {
        Ok(img) => if sources::is_oversized(img.width(), img.height()) {
            Ok(shrink_image(&img, POSTER_MAX))
        } else {
            Ok(img)
        },
        Err(m) => Err(Error::Resolve(text::cat("poster decode: ", m.as_str()))),
    }
}

/// Decode a poster, capped to a sane max.
pub fn poster_image(bytes: &[u8]) -> (r: Result<DynamicImage>)
    ensures
        match r {
            Ok(out) => (exists|img: DynamicImage| #[trigger]
                may_decode(bytes@, Ok(img)) && poster_of(img, out)) && image_size(out).0
                <= POSTER_MAX && image_size(out).1 <= POSTER_MAX,
            Err(e) => exists|m: Seq<char>| #[trigger]
                may_decode(bytes@, Err(m)) && e@ == Fault::Resolve("poster decode: "@ + m),
        },
{
    poster_from(decode_image(bytes))
}

/// The poster resized to the box's exact pixels (Lanczos3 keeps it sharp) as PNG; none when
/// it cannot be scaled or written.
pub fn poster_png(img: &DynamicImage, width: u32, height: u32) -> (r: Option<Vec<u8>>)
    ensures
        !fillable(image_size(*img), width, height) ==> r is None,
        fillable(image_size(*img), width, height) ==> exists|sized: DynamicImage| #[trigger]
            may_fill(*img, width, height, Filter::Lanczos3, sized) && match r {
                Some(png) => may_encode(sized, Ok(png@)) && png_of_size(png@, (width, height)),
                None => exists|m: Seq<char>| #[trigger] may_encode(sized, Err(m)),
            },
{
    if !can_fill(img, width, height) {
        return None;
    }
    let sized = fill_image(img, width, height, Filter::Lanczos3);
    match encode_png(&sized) {
        Ok(png) => Some(png),
        Err(_) => None,
    }
}

} // verus!
