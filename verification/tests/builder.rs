use zebra_epl2_printer::builder::{
    build_four_product_label_with_brand, build_label, build_two_product_label,
    build_two_product_label_clean, build_two_product_label_clean_centered,
    build_two_product_label_with_brand, clean_config, compose_label, pack_block, plain_config,
    render_text_block, render_title_block,
};
use zebra_epl2_printer::config::{Orientation, Polarity, RenderConfig};
use zebra_epl2_printer::error::LabelError;
use zebra_epl2_printer::font::decode_font;
use zebra_epl2_printer::glyph::{GlyphCoverage, LineGlyphs};
use zebra_epl2_printer::request::{
    arrangement_for, check_request, clean_product_text, clean_style, plain_product_text,
    plain_style, prepare_label, product_text, Arrangement, LabelRequest, LabelStyle, LineStyle,
    Product,
};

/// One solid glyph of 8 by 20 for every character of `text`, 10 apart.
fn glyphs_for(text: &str, line_extent: u32) -> LineGlyphs {
    let mut glyphs = Vec::new();
    for (i, c) in text.chars().enumerate() {
        if c != ' ' {
            glyphs.push(GlyphCoverage {
                left: (i as i32) * 10,
                top: 5,
                width: 8,
                height: 20,
                coverage: vec![255; 160],
            });
        }
    }
    LineGlyphs { glyphs, line_extent }
}

fn product(name: &str, price: &str, barcode: &str) -> Product {
    Product { name: name.to_string(), price: price.to_string(), barcode: barcode.to_string() }
}

fn sample_request() -> LabelRequest {
    LabelRequest {
        title: None,
        products: vec![
            product(
                "\u{639}\u{635}\u{64a}\u{631} \u{628}\u{631}\u{62a}\u{642}\u{627}\u{644} \u{635}\u{63a}\u{64a}\u{631}",
                "5.00",
                "622300123456",
            ),
            product(
                "\u{645}\u{64a}\u{627}\u{647} \u{645}\u{639}\u{62f}\u{646}\u{64a}\u{629} \u{635}\u{63a}\u{64a}\u{631}\u{629}",
                "3.50",
                "622300654321",
            ),
        ],
        font: Vec::new(),
    }
}

/// The directives of a job: for each, its text and the length of the
/// binary payload that follows it.
fn directives(job: &[u8]) -> Vec<(String, usize)> {
    let mut out = Vec::new();
    let mut at = 0;
    while at < job.len() {
        let end = at + job[at..].windows(2).position(|w| w == b"\r\n").expect("unterminated line");
        let text = String::from_utf8(job[at..end].to_vec()).unwrap();
        at = end + 2;
        let mut payload = 0;
        if text.starts_with("GW") {
            let fields: Vec<usize> = text[2..].split(',').map(|f| f.parse().unwrap()).collect();
            assert_eq!(fields.len(), 4);
            payload = fields[2] * fields[3];
            assert_eq!(&job[at + payload..at + payload + 2], b"\r\n");
            at += payload + 2;
        }
        out.push((text, payload));
    }
    out
}

#[test]
fn two_and_four_products_have_an_arrangement() {
    assert_eq!(arrangement_for(2), Ok(Arrangement::StackedPair));
    assert_eq!(arrangement_for(4), Ok(Arrangement::Grid));
    for n in [0usize, 1, 3, 5, 6, 100] {
        assert_eq!(arrangement_for(n), Err(LabelError::InvalidProductCount));
    }
}

#[test]
fn line_styles_follow_the_arrangement() {
    assert_eq!(
        Arrangement::StackedPair.line_style(),
        LineStyle { font_px: 52, padding: 3, bold: true }
    );
    assert_eq!(Arrangement::Grid.line_style(), LineStyle { font_px: 36, padding: 2, bold: true });
    assert_eq!(Arrangement::Grid.title_style(), LineStyle { font_px: 40, padding: 2, bold: true });
    assert_eq!(
        Arrangement::Grid.style(),
        LabelStyle {
            title: LineStyle { font_px: 40, padding: 2, bold: true },
            line: LineStyle { font_px: 36, padding: 2, bold: true },
        }
    );
    assert_eq!(plain_style().line, LineStyle { font_px: 30, padding: 12, bold: false });
    assert_eq!(clean_style().line, LineStyle { font_px: 36, padding: 10, bold: false });
}

#[test]
fn product_line_is_name_price_and_currency() {
    assert_eq!(product_text("Tea", "5.00"), "Tea  5.00 \u{62c}.\u{645}");
    assert_eq!(product_text("", ""), "   \u{62c}.\u{645}");
    assert_eq!(plain_product_text("Tea", "5.00"), "Tea    5.00");
    assert_eq!(clean_product_text("Tea", "5.00"), "Tea    5.00 \u{62c}.\u{645}");
}

#[test]
fn request_with_wrong_product_count_is_refused() {
    for n in [0usize, 1, 3, 5] {
        let request = LabelRequest {
            title: None,
            products: (0..n).map(|_| product("Tea", "1.00", "622300123456")).collect(),
            font: Vec::new(),
        };
        assert!(matches!(prepare_label(&request), Err(LabelError::InvalidProductCount)));
    }
}

#[test]
fn product_count_is_checked_before_the_barcodes() {
    let request = LabelRequest {
        title: None,
        products: vec![product("Tea", "1.00", "")],
        font: Vec::new(),
    };
    assert!(matches!(prepare_label(&request), Err(LabelError::InvalidProductCount)));
}

#[test]
fn request_with_barcode_without_digits_is_refused() {
    for bad in ["", "---", "abc def", ". , ; !"] {
        let mut request = sample_request();
        request.products[1].barcode = bad.to_string();
        assert!(matches!(prepare_label(&request), Err(LabelError::InvalidBarcodeDigits)));
    }
}

#[test]
fn prepared_job_holds_display_lines_and_complete_codes() {
    let mut request = sample_request();
    request.title = Some("Shop".to_string());
    request.products[0].name = "Tea".to_string();
    let job = prepare_label(&request).unwrap();
    assert_eq!(job.arrangement, Arrangement::StackedPair);
    assert_eq!(job.title, Some("Shop".to_string()));
    assert_eq!(job.lines.len(), 2);
    assert_eq!(job.codes.len(), 2);
    assert_eq!(job.codes[0].as_str(), "6223001234562");
    assert_eq!(job.codes[1].as_str(), "6223006543218");
    // the currency is Arabic and is drawn shaped, last letter first
    assert_eq!(job.lines[0], "Tea  5.00 \u{fee1}.\u{fe9d}");
    assert_ne!(job.lines[1], product_text(&request.products[1].name, "3.50"));
}

#[test]
fn two_products_end_to_end() {
    let request = sample_request();
    let job = prepare_label(&request).unwrap();
    let lines: Vec<LineGlyphs> = job.lines.iter().map(|l| glyphs_for(l, 40)).collect();
    let refs: Vec<&LineGlyphs> = lines.iter().collect();
    let config = RenderConfig::standard();
    let bytes = compose_label(440, 320, None, &refs, &job.codes, &job.arrangement.style(), &config).unwrap();
    assert!(bytes.starts_with(b"N\r\nq440\r\nQ320,24\r\n"));
    assert!(bytes.ends_with(b"P1\r\n"));
    let found = directives(&bytes);
    let texts: Vec<&str> = found.iter().map(|d| d.0.as_str()).collect();
    assert_eq!(&texts[..5], &["N", "q440", "Q320,24", "D8", "S2"]);
    assert_eq!(*texts.last().unwrap(), "P1");
    assert_eq!(texts.iter().filter(|t| t.starts_with("GW")).count(), 2);
    let barcodes: Vec<&&str> = texts.iter().filter(|t| t.starts_with('B')).collect();
    assert_eq!(barcodes.len(), 2);
    assert!(barcodes[0].ends_with(",\"6223001234562\""));
    assert!(barcodes[1].ends_with(",\"6223006543218\""));
    assert_eq!(texts.len(), 5 + 4 + 1);
    assert!(texts[5].starts_with("GW"));
    assert!(texts[6].starts_with('B'));
    assert!(texts[7].starts_with("GW"));
    assert!(texts[8].starts_with('B'));
    // each image payload is bytes per row times height long: height 40
    for d in found.iter().filter(|d| d.0.starts_with("GW")) {
        assert!(d.0.ends_with(",40"));
        assert!(d.1 > 0 && d.1 % 40 == 0);
    }
    // composing again gives the same bytes
    assert_eq!(compose_label(440, 320, None, &refs, &job.codes, &job.arrangement.style(), &config).unwrap(), bytes);
}

#[test]
fn builder_places_blocks_by_their_measured_size() {
    // text of 3 glyphs: 28 wide, padding 3 on both sides: 34 wide, 40 high
    let line = glyphs_for("abc", 40);
    let bytes = build_two_product_label_with_brand(
        &glyphs_for("ab", 20),
        &line,
        "622300123456",
        &line,
        "622300654321",
    )
    .unwrap();
    let texts: Vec<String> = directives(&bytes).into_iter().map(|d| d.0).collect();
    assert_eq!(
        texts,
        vec![
            "N",
            "q440",
            "Q320,24",
            "D8",
            "S2",
            // title 18 + 4 wide, 30 high, in the middle
            "GW209,10,3,30",
            "GW396,52,5,40",
            "B125,100,0,E30,2,3,35,B,\"6223001234562\"",
            "GW209,170,3,30",
            "GW396,212,5,40",
            "B125,260,0,E30,2,3,35,B,\"6223006543218\"",
            "P1",
        ]
    );
}

#[test]
fn plain_and_clean_labels_differ_in_calibration() {
    let line = glyphs_for("abc", 40);
    let plain = build_two_product_label(&line, "622300123456", &line, "622300654321").unwrap();
    let texts: Vec<String> = directives(&plain).into_iter().map(|d| d.0).collect();
    assert_eq!(
        texts,
        vec![
            "N",
            "q440",
            "Q320,24",
            "D7",
            "S2",
            // text 28 wide, padding 12 on both sides, set 10 off the right edge
            "GW378,10,7,40",
            "B125,58,0,E30,2,4,60,B,\"6223001234562\"",
            "GW378,170,7,40",
            "B125,218,0,E30,2,4,60,B,\"6223006543218\"",
            "P1",
        ]
    );
    let same = build_two_product_label_clean(&line, "622300123456", &line, "622300654321");
    assert_eq!(same.unwrap(), plain);
    let clean =
        build_two_product_label_clean_centered(&line, "622300123456", &line, "622300654321")
            .unwrap();
    let texts: Vec<String> = directives(&clean).into_iter().map(|d| d.0).collect();
    assert_eq!(texts[3], "D6");
    assert_eq!(texts[4], "S3");
    assert_eq!(texts[5], "GW382,10,6,40");
    assert_eq!(texts[6], "B125,58,0,E30,2,4,52,B,\"6223001234562\"");
    assert_eq!(plain_config().darkness, 7);
    assert_eq!(clean_config().barcode_height, 52);
}

#[test]
fn four_products_fill_the_grid() {
    let line = glyphs_for("abc", 30);
    let brand = glyphs_for("ab", 20);
    let bytes = build_four_product_label_with_brand(
        &brand,
        &line,
        "1",
        &line,
        "2",
        &line,
        "3",
        &line,
        "4",
    )
    .unwrap();
    let texts: Vec<String> = directives(&bytes).into_iter().map(|d| d.0).collect();
    assert_eq!(texts.len(), 5 + 12 + 1);
    assert_eq!(texts.iter().filter(|t| t.starts_with("GW")).count(), 8);
    assert_eq!(texts.iter().filter(|t| t.starts_with('B')).count(), 4);
    // text 28 + 4 wide, 30 high; title 22 wide, 30 high
    assert_eq!(texts[5], "GW98,4,3,30");
    assert_eq!(texts[6], "GW93,40,4,30");
    assert_eq!(texts[7], "B18,73,0,E30,2,3,35,B,\"1000000000009\"");
    assert_eq!(texts[8], "GW320,4,3,30");
    assert_eq!(texts[16], "B236,235,0,E30,2,3,35,B,\"4000000000006\"");
}

#[test]
fn builder_refuses_in_order_count_barcode_canvas() {
    let line = glyphs_for("abc", 40);
    let config = RenderConfig::standard();
    let style = Arrangement::StackedPair.style();
    for n in [0usize, 1, 3, 5] {
        let lines: Vec<&LineGlyphs> = (0..n).map(|_| &line).collect();
        let barcodes: Vec<&str> = (0..n).map(|_| "").collect();
        assert_eq!(
            build_label(10, 10, None, &lines, &barcodes, &style, &config),
            Err(LabelError::InvalidProductCount)
        );
    }
    let lines = vec![&line, &line];
    assert_eq!(
        build_label(440, 320, None, &lines, &vec!["1"], &style, &config),
        Err(LabelError::InvalidProductCount)
    );
    assert_eq!(
        build_label(10, 10, None, &lines, &vec!["1", "--"], &style, &config),
        Err(LabelError::InvalidBarcodeDigits)
    );
    assert_eq!(
        build_label(10, 10, None, &lines, &vec!["1", "2"], &style, &config),
        Err(LabelError::CanvasTooSmall)
    );
    assert!(build_label(440, 320, None, &lines, &vec!["1", "2"], &style, &config).is_ok());
    assert_eq!(
        build_two_product_label(&line, "", &line, "1"),
        Err(LabelError::InvalidBarcodeDigits)
    );
    // a line as long as the label does not fit
    let long = glyphs_for(&"x".repeat(44), 40);
    assert_eq!(
        build_two_product_label(&long, "1", &line, "1"),
        Err(LabelError::CanvasTooSmall)
    );
}

#[test]
fn block_is_packed_for_the_polarity_of_the_print_head() {
    let line = glyphs_for("a", 3);
    let style = LineStyle { font_px: 36, padding: 0, bold: false };
    let mut config = RenderConfig::standard();
    config.min_line_height = 1;
    config.polarity = Polarity::Normal;
    let normal = render_text_block(&line, style, &config).unwrap();
    assert_eq!((normal.width(), normal.height()), (8, 3));
    // the glyph starts at row 5, below the three rows of the line
    assert_eq!(normal.rows(), &vec![0u8, 0, 0]);
    config.polarity = Polarity::Inverted;
    let inverted = render_text_block(&line, style, &config).unwrap();
    assert_eq!(inverted.rows(), &vec![255u8, 255, 255]);
}

#[test]
fn landscape_turns_every_block_a_quarter() {
    let line = LineGlyphs {
        glyphs: vec![GlyphCoverage { left: 0, top: 0, width: 3, height: 1, coverage: vec![255; 3] }],
        line_extent: 2,
    };
    let style = LineStyle { font_px: 36, padding: 0, bold: false };
    let mut config = RenderConfig::standard();
    config.min_line_height = 1;
    config.polarity = Polarity::Normal;
    let upright = render_text_block(&line, style, &config).unwrap();
    assert_eq!((upright.width(), upright.height()), (3, 2));
    assert_eq!(upright.rows(), &vec![0b1110_0000u8, 0]);
    config.orientation = Orientation::Landscape;
    let turned = render_text_block(&line, style, &config).unwrap();
    assert_eq!((turned.width(), turned.height()), (2, 3));
    assert_eq!(turned.rows(), &vec![0b0100_0000u8, 0b0100_0000, 0b0100_0000]);
    let title = render_title_block(&line, style, &config).unwrap();
    assert_eq!((title.width(), title.height()), (2, 3));
    let bitmap = zebra_epl2_printer::bitmap::MonoBitmap::new(5, 1).unwrap();
    assert_eq!(pack_block(bitmap, &config).height(), 5);
}

#[test]
fn bytes_that_are_no_font_are_refused() {
    assert!(matches!(decode_font(&[]), Err(LabelError::FontDecodeError)));
    assert!(matches!(decode_font(b"not a font"), Err(LabelError::FontDecodeError)));
    assert!(matches!(decode_font(&[0u8; 64]), Err(LabelError::FontDecodeError)));
}

#[test]
fn plain_lines_are_drawn_regular_and_brand_lines_bold() {
    let line = LineGlyphs {
        glyphs: vec![GlyphCoverage { left: 0, top: 0, width: 1, height: 1, coverage: vec![255] }],
        line_extent: 30,
    };
    let config = RenderConfig::standard();
    let regular = render_text_block(&line, plain_style().line, &config).unwrap().unpack();
    assert_eq!(regular.width(), 25);
    assert_eq!(regular.black_count(), 1);
    assert!(regular.get(12, 0));
    let bold = render_text_block(&line, Arrangement::StackedPair.line_style(), &config)
        .unwrap()
        .unpack();
    assert_eq!(bold.width(), 7);
    assert_eq!(bold.black_count(), 2);
    assert!(bold.get(3, 0) && bold.get(4, 0));
}

#[test]
fn request_is_checked_in_order_count_barcode_font() {
    // the font of the sample request is no font
    let mut request = sample_request();
    assert!(matches!(check_request(&request), Err(LabelError::FontDecodeError)));
    request.font = b"not a font".to_vec();
    assert!(matches!(check_request(&request), Err(LabelError::FontDecodeError)));
    request.products[0].barcode = "--".to_string();
    assert!(matches!(check_request(&request), Err(LabelError::InvalidBarcodeDigits)));
    request.products.pop();
    assert!(matches!(check_request(&request), Err(LabelError::InvalidProductCount)));
    request.products.clear();
    assert!(matches!(check_request(&request), Err(LabelError::InvalidProductCount)));
}

#[test]
fn every_request_with_two_or_four_good_barcodes_is_prepared() {
    for n in [2usize, 4] {
        let request = LabelRequest {
            title: None,
            products: (0..n).map(|i| product("Tea", "1.00", &format!("{}", i))).collect(),
            font: Vec::new(),
        };
        let job = prepare_label(&request).unwrap();
        assert_eq!(job.lines.len(), n);
        assert_eq!(job.codes.len(), n);
        assert_eq!(job.title, None);
        assert_eq!(job.codes[1].as_str(), "1000000000009");
    }
}
