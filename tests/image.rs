use ray_tracer::image::Image;
use ray_tracer::pixels::{Pixel, RGBAPixel, RGBPixel};

#[test]
fn two_by_two_rgb_raw_buffer() {
    let mut image: Image<RGBPixel> = Image::new(2, 2);
    {
        let pixel = image.pixel_at_mut(0, 0).unwrap();
        pixel.r = 255;
        pixel.g = 0;
        pixel.b = 0;
    }
    assert_eq!(image.raw_buffer(), vec![255, 0, 0, 0, 0, 0, 0, 0, 0, 0, 0, 0]);
}

#[test]
fn raw_buffer_length_rgb() {
    let image: Image<RGBPixel> = Image::new(5, 3);
    assert_eq!(image.raw_buffer().len(), 5 * 3 * 3);
}

#[test]
fn raw_buffer_length_rgba() {
    let image: Image<RGBAPixel> = Image::new(3, 2);
    assert_eq!(image.raw_buffer().len(), 3 * 2 * 4);
}

#[test]
fn new_image_is_all_zero() {
    let image: Image<RGBAPixel> = Image::new(4, 4);
    assert!(image.raw_buffer().iter().all(|v| *v == 0));
    assert_eq!(image.width(), 4);
    assert_eq!(image.height(), 4);
}

#[test]
fn empty_image() {
    let mut image: Image<RGBPixel> = Image::new(0, 5);
    assert!(image.raw_buffer().is_empty());
    assert!(image.pixel_at_mut(0, 0).is_none());
}

#[test]
fn pixel_at_mut_bounds() {
    let mut image: Image<RGBPixel> = Image::new(3, 2);
    assert!(image.pixel_at_mut(3, 0).is_none());
    assert!(image.pixel_at_mut(0, 2).is_none());
    assert!(image.pixel_at_mut(3, 2).is_none());
    assert!(image.pixel_at_mut(u32::MAX, u32::MAX).is_none());
    assert!(image.pixel_at_mut(2, 1).is_some());
    assert!(image.pixel_at_mut(0, 0).is_some());
}

#[test]
fn write_lands_at_row_major_offset() {
    let mut image: Image<RGBPixel> = Image::new(3, 2);
    *image.pixel_at_mut(1, 1).unwrap() = RGBPixel { r: 1, g: 2, b: 3 };
    let raw = image.raw_buffer();
    // pixel (1, 1) is pixel 1 + 1 * 3 = 4, at byte offset 12
    assert_eq!(&raw[12..15], &[1, 2, 3]);
    assert_eq!(raw.iter().filter(|v| **v != 0).count(), 3);
}

#[test]
fn write_rgba_last_pixel() {
    let mut image: Image<RGBAPixel> = Image::new(2, 2);
    *image.pixel_at_mut(1, 1).unwrap() = RGBAPixel { r: 9, g: 8, b: 7, a: 6 };
    let raw = image.raw_buffer();
    assert_eq!(&raw[12..16], &[9, 8, 7, 6]);
    assert_eq!(&raw[..12], &[0; 12]);
}

#[test]
fn pixel_values_in_channel_order() {
    let rgb = RGBPixel { r: 10, g: 20, b: 30 };
    assert_eq!(rgb.values(), vec![10, 20, 30]);
    let rgba = RGBAPixel { r: 10, g: 20, b: 30, a: 40 };
    assert_eq!(rgba.values(), vec![10, 20, 30, 40]);
}

#[test]
fn default_pixels_are_zero() {
    assert_eq!(<RGBPixel as Pixel>::new().values(), vec![0, 0, 0]);
    assert_eq!(<RGBAPixel as Pixel>::new().values(), vec![0, 0, 0, 0]);
}
