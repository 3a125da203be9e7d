use zebra_epl2_printer::barcode::{normalize_ean13, Ean13Code};
use zebra_epl2_printer::bitmap::MonoBitmap;
use zebra_epl2_printer::config::{Polarity, RenderConfig};
use zebra_epl2_printer::document::{LabelDocument, LabelElement};
use zebra_epl2_printer::epl::emit_document;
use zebra_epl2_printer::error::LabelError;
use zebra_epl2_printer::layout::{
    center_x_for_ean13, grid, plan_label, stacked_pair, Cell, TextAlign,
};
use zebra_epl2_printer::raster::{image_to_row_bytes, PackedRaster};

fn block(width: u32, height: u32) -> PackedRaster {
    image_to_row_bytes(&MonoBitmap::new(width, height).unwrap(), Polarity::Normal)
}

fn codes(n: usize) -> Vec<Ean13Code> {
    (0..n).map(|i| normalize_ean13(&format!("62230012345{}", i)).unwrap()).collect()
}

fn text_at(e: &LabelElement) -> (u32, u32, u32, u32) {
    match e {
        LabelElement::TextBlock { raster, x, y } => (*x, *y, raster.width(), raster.height()),
        _ => panic!("not a text block"),
    }
}

fn barcode_at(e: &LabelElement) -> (u32, u32) {
    match e {
        LabelElement::Barcode { x, y, .. } => (*x, *y),
        _ => panic!("not a barcode"),
    }
}

#[test]
fn barcode_is_centred_on_the_label() {
    assert_eq!(center_x_for_ean13(440, 2), 125);
    assert_eq!(center_x_for_ean13(440, 3), 77);
    assert_eq!(center_x_for_ean13(218, 2), 14);
    assert_eq!(center_x_for_ean13(190, 2), 0);
    assert_eq!(center_x_for_ean13(100, 2), 0);
    assert_eq!(center_x_for_ean13(100, u32::MAX), 0);
}

#[test]
fn stacked_pair_splits_the_canvas_into_two_bands() {
    let slots = stacked_pair(440, 320);
    assert_eq!(slots.len(), 2);
    assert_eq!(slots[0].cell, Cell { left: 0, top: 0, width: 440, height: 160 });
    assert_eq!(slots[1].cell, Cell { left: 0, top: 160, width: 440, height: 160 });
    assert_eq!(slots[0].align, TextAlign::Right { padding: 10 });
    assert_eq!(slots[0].barcode_gap, 8);
    let slots = stacked_pair(440, 321);
    assert_eq!(slots[1].cell, Cell { left: 0, top: 160, width: 440, height: 160 });
}

#[test]
fn grid_divides_the_canvas_into_four_quadrants_with_a_gap() {
    let slots = grid(440, 320);
    assert_eq!(slots.len(), 4);
    assert_eq!(slots[0].cell, Cell { left: 0, top: 0, width: 218, height: 158 });
    assert_eq!(slots[1].cell, Cell { left: 222, top: 0, width: 218, height: 158 });
    assert_eq!(slots[2].cell, Cell { left: 0, top: 162, width: 218, height: 158 });
    assert_eq!(slots[3].cell, Cell { left: 222, top: 162, width: 218, height: 158 });
    assert_eq!(slots[0].barcode_shift, 4);
    assert_eq!(slots[1].barcode_shift, 0);
    assert_eq!(slots[2].barcode_shift, 4);
    assert_eq!(slots[0].align, TextAlign::Centered);
    let tiny = grid(3, 3);
    assert_eq!(tiny[3].cell, Cell { left: 0, top: 0, width: 0, height: 0 });
}

#[test]
fn stacked_pair_without_title_is_placed_by_measured_height() {
    let config = RenderConfig::standard();
    let blocks = vec![block(200, 40), block(150, 50)];
    let doc = plan_label(440, 320, None, &blocks, &codes(2), &config).unwrap();
    let e = doc.elements();
    assert_eq!(e.len(), 4);
    assert_eq!(text_at(&e[0]), (230, 10, 200, 40));
    assert_eq!(barcode_at(&e[1]), (125, 58));
    assert_eq!(text_at(&e[2]), (280, 170, 150, 50));
    assert_eq!(barcode_at(&e[3]), (125, 228));
    assert_eq!(doc.canvas_width(), 440);
    assert_eq!(doc.canvas_height(), 320);
    assert_eq!(doc.gap(), 24);
    assert_eq!(doc.darkness(), 8);
    assert_eq!(doc.speed(), 2);
}

#[test]
fn stacked_pair_with_title_puts_the_text_under_it() {
    let config = RenderConfig::standard();
    let blocks = vec![block(200, 40), block(150, 50)];
    let title = block(100, 30);
    let doc = plan_label(440, 320, Some(&title), &blocks, &codes(2), &config).unwrap();
    let e = doc.elements();
    assert_eq!(e.len(), 6);
    assert_eq!(text_at(&e[0]), (170, 10, 100, 30));
    assert_eq!(text_at(&e[1]), (230, 52, 200, 40));
    assert_eq!(barcode_at(&e[2]), (125, 100));
    assert_eq!(text_at(&e[3]), (170, 170, 100, 30));
    assert_eq!(text_at(&e[4]), (280, 212, 150, 50));
    assert_eq!(barcode_at(&e[5]), (125, 270));
}

#[test]
fn barcode_lies_below_the_text_for_every_height() {
    let config = RenderConfig::standard();
    for height in 10..=100u32 {
        let blocks = vec![block(120, height), block(120, height)];
        let doc = plan_label(440, 320, None, &blocks, &codes(2), &config).unwrap();
        let e = doc.elements();
        for band in 0..2 {
            let (_, text_y, _, text_h) = text_at(&e[2 * band]);
            let (_, barcode_y) = barcode_at(&e[2 * band + 1]);
            assert_eq!(text_h, height);
            assert!(barcode_y > text_y + text_h);
            assert_eq!(barcode_y, text_y + text_h + 8);
        }
    }
}

#[test]
fn grid_stacks_each_quadrant_on_its_own() {
    let config = RenderConfig::standard();
    let blocks = vec![block(100, 30), block(100, 30), block(60, 20), block(100, 30)];
    let title = block(80, 20);
    let doc = plan_label(440, 320, Some(&title), &blocks, &codes(4), &config).unwrap();
    let e = doc.elements();
    assert_eq!(e.len(), 12);
    assert_eq!(text_at(&e[0]), (69, 4, 80, 20));
    assert_eq!(text_at(&e[1]), (59, 30, 100, 30));
    assert_eq!(barcode_at(&e[2]), (18, 63));
    assert_eq!(text_at(&e[3]), (291, 4, 80, 20));
    assert_eq!(text_at(&e[4]), (281, 30, 100, 30));
    assert_eq!(barcode_at(&e[5]), (236, 63));
    assert_eq!(text_at(&e[6]), (69, 166, 80, 20));
    assert_eq!(text_at(&e[7]), (79, 192, 60, 20));
    assert_eq!(barcode_at(&e[8]), (18, 215));
    assert_eq!(text_at(&e[9]), (291, 166, 80, 20));
    assert_eq!(text_at(&e[10]), (281, 192, 100, 30));
    assert_eq!(barcode_at(&e[11]), (236, 225));
}

#[test]
fn barcode_element_carries_the_configuration_and_the_code() {
    let mut config = RenderConfig::standard();
    config.narrow = 1;
    config.wide = 5;
    config.barcode_height = 20;
    config.hri_visible = false;
    let blocks = vec![block(20, 10), block(20, 10)];
    let doc = plan_label(200, 200, None, &blocks, &codes(2), &config).unwrap();
    match &doc.elements()[3] {
        LabelElement::Barcode { x, y, rotation, narrow, wide, height, hri_visible, digits } => {
            assert_eq!((*x, *y), (52, 128));
            assert_eq!(*rotation, 0);
            assert_eq!((*narrow, *wide, *height), (1, 5, 20));
            assert!(!*hri_visible);
            assert_eq!(digits.as_str(), "6223001234517");
        }
        _ => panic!("not a barcode"),
    }
}

#[test]
fn other_numbers_of_products_are_refused() {
    let config = RenderConfig::standard();
    for n in [0usize, 1, 3, 5] {
        let blocks: Vec<PackedRaster> = (0..n).map(|_| block(10, 10)).collect();
        let out = plan_label(440, 320, None, &blocks, &codes(n), &config);
        assert!(matches!(out, Err(LabelError::InvalidProductCount)));
    }
    let blocks = vec![block(10, 10), block(10, 10)];
    let out = plan_label(440, 320, None, &blocks, &codes(4), &config);
    assert!(matches!(out, Err(LabelError::InvalidProductCount)));
}

#[test]
fn canvas_too_small_is_refused() {
    let config = RenderConfig::standard();
    let blocks = vec![block(200, 40), block(150, 50)];
    // too low for text and barcode in one band
    let out = plan_label(440, 180, None, &blocks, &codes(2), &config);
    assert!(matches!(out, Err(LabelError::CanvasTooSmall)));
    // too narrow for the barcode
    let out = plan_label(189, 320, None, &vec![block(20, 40), block(20, 50)], &codes(2), &config);
    assert!(matches!(out, Err(LabelError::CanvasTooSmall)));
    // too narrow for the text and its padding
    let out = plan_label(209, 320, None, &blocks, &codes(2), &config);
    assert!(matches!(out, Err(LabelError::CanvasTooSmall)));
    assert!(plan_label(210, 320, None, &blocks, &codes(2), &config).is_ok());
    // the second band is just high enough: 10 + 50 + 8 + 35 = 103
    assert!(plan_label(440, 206, None, &blocks, &codes(2), &config).is_ok());
    assert!(matches!(
        plan_label(440, 205, None, &blocks, &codes(2), &config),
        Err(LabelError::CanvasTooSmall)
    ));
    // a title wider than the cell
    let title = block(441, 10);
    let out = plan_label(440, 320, Some(&title), &blocks, &codes(2), &config);
    assert!(matches!(out, Err(LabelError::CanvasTooSmall)));
    // four products need more room than two
    let four = vec![block(200, 40), block(150, 50), block(200, 40), block(150, 50)];
    assert!(matches!(
        plan_label(440, 180, None, &four, &codes(4), &config),
        Err(LabelError::CanvasTooSmall)
    ));
    assert!(matches!(
        plan_label(0, 0, None, &blocks, &codes(2), &config),
        Err(LabelError::CanvasTooSmall)
    ));
}

#[test]
fn every_planned_element_lies_on_the_canvas() {
    let config = RenderConfig::standard();
    let blocks = vec![block(214, 100), block(1, 1), block(218, 50), block(17, 105)];
    let title = block(218, 5);
    let doc = plan_label(440, 320, Some(&title), &blocks, &codes(4), &config).unwrap();
    for e in doc.elements() {
        assert!(e.fits(440, 320));
        assert!(e.left() as u64 + e.extent_width() <= 440);
        assert!(e.top() as u64 + e.extent_height() <= 320);
    }
}

#[test]
fn document_takes_only_elements_that_lie_on_the_canvas() {
    let config = RenderConfig::standard();
    let mut doc = LabelDocument::new(100, 50, &config);
    assert!(doc.push(LabelElement::Rule { x: 0, y: 49, thickness: 1, length: 100 }).is_ok());
    assert_eq!(
        doc.push(LabelElement::Rule { x: 1, y: 49, thickness: 1, length: 100 }),
        Err(LabelError::CanvasTooSmall)
    );
    assert_eq!(
        doc.push(LabelElement::Rule { x: 0, y: 49, thickness: 2, length: 100 }),
        Err(LabelError::CanvasTooSmall)
    );
    assert!(doc.push(LabelElement::TextBlock { raster: block(10, 10), x: 90, y: 40 }).is_ok());
    assert!(doc.push(LabelElement::TextBlock { raster: block(10, 10), x: 91, y: 40 }).is_err());
    assert_eq!(doc.elements().len(), 2);
    let bytes = emit_document(&doc);
    let mut expected = b"N\r\nq100\r\nQ50,24\r\nD8\r\nS2\r\nLO0,49,1,100\r\nGW90,40,2,10\r\n".to_vec();
    expected.extend_from_slice(&[0u8; 20]);
    expected.extend_from_slice(b"\r\nP1\r\n");
    assert_eq!(bytes, expected);
}

#[test]
fn emitting_a_document_twice_gives_the_same_bytes() {
    let config = RenderConfig::standard();
    let blocks = vec![block(200, 40), block(150, 50)];
    let title = block(100, 30);
    let doc = plan_label(440, 320, Some(&title), &blocks, &codes(2), &config).unwrap();
    let first = emit_document(&doc);
    let second = emit_document(&doc);
    assert_eq!(first, second);
    let again = plan_label(440, 320, Some(&title), &blocks, &codes(2), &config).unwrap();
    assert_eq!(emit_document(&again), first);
}

#[test]
fn emission_follows_document_order() {
    let config = RenderConfig::standard();
    let blocks = vec![block(8, 1), block(16, 1)];
    let doc = plan_label(440, 320, None, &blocks, &codes(2), &config).unwrap();
    let bytes = emit_document(&doc);
    let mut expected = b"N\r\nq440\r\nQ320,24\r\nD8\r\nS2\r\n".to_vec();
    expected.extend_from_slice(b"GW422,10,1,1\r\n\x00\r\n");
    expected.extend_from_slice(b"B125,19,0,E30,2,3,35,B,\"6223001234500\"\r\n");
    expected.extend_from_slice(b"GW414,170,2,1\r\n\x00\x00\r\n");
    expected.extend_from_slice(b"B125,179,0,E30,2,3,35,B,\"6223001234517\"\r\n");
    expected.extend_from_slice(b"P1\r\n");
    assert_eq!(bytes, expected);
}
