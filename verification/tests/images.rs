use anime_tui::images::{poster_from, poster_image, poster_png, thumb_from, thumb_png};
use image::{DynamicImage, ImageFormat};

fn bytes(img: &DynamicImage, format: ImageFormat) -> Vec<u8> {
    let mut out = std::io::Cursor::new(Vec::new());
    img.write_to(&mut out, format).unwrap();
    out.into_inner()
}

/// A picture whose left half is red and whose right half is blue.
fn halves(width: u32, height: u32) -> DynamicImage {
    let mut img = image::RgbImage::new(width, height);
    for (x, _, p) in img.enumerate_pixels_mut() {
        *p = if x < width / 2 { image::Rgb([255, 0, 0]) } else { image::Rgb([0, 0, 255]) };
    }
    DynamicImage::ImageRgb8(img)
}

#[test]
fn a_thumbnail_is_a_small_png_of_the_cover() {
    for format in [ImageFormat::Png, ImageFormat::Jpeg, ImageFormat::WebP] {
        let png = thumb_png(&bytes(&halves(400, 600), format)).unwrap();
        assert_eq!(&png[..8], b"\x89PNG\r\n\x1a\n");
        assert_eq!(&png[16..24], [0, 0, 0, 120, 0, 0, 0, 180]);
        let small = image::load_from_memory(&png).unwrap().to_rgb8();
        assert_eq!(small.dimensions(), (120, 180));
        let (left, right) = (small.get_pixel(10, 90), small.get_pixel(110, 90));
        assert!(left[0] > 240 && left[2] < 15, "{left:?}");
        assert!(right[2] > 240 && right[0] < 15, "{right:?}");
    }
}

#[test]
fn a_cover_that_is_no_image_is_told() {
    let e = thumb_png(b"<html>").unwrap_err().message();
    assert!(e.contains("thumb decode: "), "{e}");
    let e = poster_image(b"").unwrap_err().message();
    assert!(e.contains("poster decode: "), "{e}");
    let e = thumb_from(Err("odd".to_string())).unwrap_err().message();
    assert!(e.ends_with("thumb decode: odd"), "{e}");
    let e = poster_from(Err("odd".to_string())).unwrap_err().message();
    assert!(e.ends_with("poster decode: odd"), "{e}");
}

#[test]
fn a_cover_without_pixels_has_no_thumbnail() {
    let e = thumb_from(Ok(DynamicImage::new_rgb8(0, 7))).unwrap_err().message();
    assert!(e.contains("thumb task: "), "{e}");
}

#[test]
fn only_a_large_poster_is_made_smaller() {
    let kept = poster_image(&bytes(&halves(900, 600), ImageFormat::Png)).unwrap();
    assert_eq!(kept, halves(900, 600));
    let wide = poster_image(&bytes(&halves(1800, 600), ImageFormat::Png)).unwrap();
    assert_eq!((wide.width(), wide.height()), (900, 300));
    let tall = poster_image(&bytes(&halves(10, 1800), ImageFormat::Png)).unwrap();
    assert_eq!((tall.width(), tall.height()), (5, 900));
}

#[test]
fn a_poster_is_sized_to_its_box() {
    let png = poster_png(&halves(600, 900), 64, 32).unwrap();
    let sized = image::load_from_memory(&png).unwrap();
    assert_eq!((sized.width(), sized.height()), (64, 32));
    assert!(poster_png(&halves(6, 9), 0, 32).is_none());
    assert!(poster_png(&DynamicImage::new_rgb8(0, 0), 64, 32).is_none());
    // Scaled to this width, the picture would be far too tall.
    assert!(poster_png(&DynamicImage::new_luma8(1, 70_000), 70_000, 1).is_none());
}
