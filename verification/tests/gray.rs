use image::{GrayImage, Luma};
use zebra_epl2_printer::bitmap::MonoBitmap;
use zebra_epl2_printer::gray::{bitmap_from_gray, gray_from_bitmap, GrayCanvas};

#[test]
fn pixels_darker_than_middle_gray_are_black() {
    let mut image = GrayImage::from_pixel(3, 2, Luma([255u8]));
    image.put_pixel(0, 0, Luma([0u8]));
    image.put_pixel(1, 0, Luma([127u8]));
    image.put_pixel(2, 0, Luma([128u8]));
    image.put_pixel(2, 1, Luma([1u8]));
    let bitmap = bitmap_from_gray(&GrayCanvas { image }).unwrap();
    assert_eq!(bitmap.width(), 3);
    assert_eq!(bitmap.height(), 2);
    assert!(bitmap.get(0, 0));
    assert!(bitmap.get(1, 0));
    assert!(!bitmap.get(2, 0));
    assert!(!bitmap.get(0, 1));
    assert!(!bitmap.get(1, 1));
    assert!(bitmap.get(2, 1));
    assert_eq!(bitmap.black_count(), 3);
}

#[test]
fn image_without_pixels_has_no_bitmap() {
    assert!(bitmap_from_gray(&GrayCanvas { image: GrayImage::new(0, 0) }).is_none());
    assert!(bitmap_from_gray(&GrayCanvas { image: GrayImage::new(5, 0) }).is_none());
    assert!(bitmap_from_gray(&GrayCanvas { image: GrayImage::new(0, 5) }).is_none());
}

#[test]
fn bitmap_becomes_black_and_white_image() {
    let mut bitmap = MonoBitmap::new(4, 3).unwrap();
    bitmap.set_black(0, 0);
    bitmap.set_black(3, 2);
    bitmap.set_black(1, 1);
    let canvas = gray_from_bitmap(&bitmap).unwrap();
    assert_eq!(canvas.image.dimensions(), (4, 3));
    for y in 0..3 {
        for x in 0..4 {
            let expected = if bitmap.get(x, y) { 0u8 } else { 255u8 };
            assert_eq!(canvas.image.get_pixel(x, y).0[0], expected);
        }
    }
    assert_eq!(canvas.image.get_pixel(3, 2).0[0], 0);
    assert_eq!(canvas.image.get_pixel(2, 2).0[0], 255);
}

#[test]
fn bitmap_survives_the_way_through_a_gray_image() {
    let mut bitmap = MonoBitmap::new(9, 5).unwrap();
    for (x, y) in [(0u32, 0u32), (8, 0), (4, 2), (0, 4), (8, 4), (3, 3)] {
        bitmap.set_black(x, y);
    }
    let back = bitmap_from_gray(&gray_from_bitmap(&bitmap).unwrap()).unwrap();
    assert_eq!((back.width(), back.height()), (9, 5));
    for y in 0..5 {
        for x in 0..9 {
            assert_eq!(back.get(x, y), bitmap.get(x, y));
        }
    }
}
