use zebra_epl2_printer::bitmap::MonoBitmap;
use zebra_epl2_printer::config::Polarity;
use zebra_epl2_printer::raster::image_to_row_bytes;

fn patterned(width: u32, height: u32) -> MonoBitmap {
    let mut b = MonoBitmap::new(width, height).unwrap();
    for y in 0..height {
        for x in 0..width {
            if (x * 7 + y * 3) % 5 < 2 {
                b.set_black(x, y);
            }
        }
    }
    b
}

#[test]
fn leftmost_pixel_goes_to_the_most_significant_bit() {
    let mut b = MonoBitmap::new(10, 2).unwrap();
    b.set_black(0, 0);
    b.set_black(9, 0);
    let p = image_to_row_bytes(&b, Polarity::Normal);
    assert_eq!(p.width(), 10);
    assert_eq!(p.height(), 2);
    assert_eq!(p.bytes_per_row(), 2);
    assert_eq!(p.rows(), &vec![0x80u8, 0x40, 0x00, 0x00]);
}

#[test]
fn each_bit_of_a_byte_has_its_pixel() {
    for x in 0..8u32 {
        let mut b = MonoBitmap::new(8, 1).unwrap();
        b.set_black(x, 0);
        let p = image_to_row_bytes(&b, Polarity::Normal);
        assert_eq!(p.rows(), &vec![0x80u8 >> x]);
    }
}

#[test]
fn inverted_polarity_flips_every_byte() {
    let mut b = MonoBitmap::new(10, 2).unwrap();
    b.set_black(0, 0);
    b.set_black(9, 0);
    let p = image_to_row_bytes(&b, Polarity::Inverted);
    assert_eq!(p.rows(), &vec![0x7Fu8, 0xBF, 0xFF, 0xFF]);
    assert_eq!(p.polarity(), Polarity::Inverted);
}

#[test]
fn row_length_is_width_over_eight_rounded_up() {
    for (width, expected) in [(1u32, 1u32), (7, 1), (8, 1), (9, 2), (16, 2), (17, 3), (440, 55)] {
        let b = MonoBitmap::new(width, 3).unwrap();
        let p = image_to_row_bytes(&b, Polarity::Normal);
        assert_eq!(p.bytes_per_row(), expected);
        assert_eq!(p.rows().len(), (expected * 3) as usize);
    }
}

#[test]
fn padding_bits_are_zero() {
    let mut b = MonoBitmap::new(3, 1).unwrap();
    b.set_black(0, 0);
    b.set_black(1, 0);
    b.set_black(2, 0);
    let p = image_to_row_bytes(&b, Polarity::Normal);
    assert_eq!(p.rows(), &vec![0b1110_0000u8]);
}

#[test]
fn unpack_gives_the_bitmap_back() {
    for (width, height) in [(1u32, 1u32), (3, 2), (8, 4), (9, 3), (17, 5), (64, 2), (100, 7)] {
        for polarity in [Polarity::Normal, Polarity::Inverted] {
            let b = patterned(width, height);
            let u = image_to_row_bytes(&b, polarity).unpack();
            assert_eq!(u.width(), width);
            assert_eq!(u.height(), height);
            for y in 0..height {
                for x in 0..width {
                    assert_eq!(u.get(x, y), b.get(x, y));
                }
            }
        }
    }
}

#[test]
fn packed_pixels_can_be_read_one_by_one() {
    let b = patterned(13, 4);
    let p = image_to_row_bytes(&b, Polarity::Inverted);
    for y in 0..4 {
        for x in 0..13 {
            assert_eq!(p.get(x, y), b.get(x, y));
        }
        // padding and positions off the raster are white
        assert!(!p.get(13, y));
        assert!(!p.get(15, y));
    }
    assert!(!p.get(0, 4));
}

#[test]
fn copy_of_a_raster_holds_the_same_rows() {
    let p = image_to_row_bytes(&patterned(11, 3), Polarity::Normal);
    let q = p.duplicate();
    assert_eq!(q.width(), 11);
    assert_eq!(q.height(), 3);
    assert_eq!(q.polarity(), Polarity::Normal);
    assert_eq!(q.rows(), p.rows());
}
