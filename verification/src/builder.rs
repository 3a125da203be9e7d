use crate::barcode::{digits_of, normalize_ean13, payload_of, with_checksum, Ean13Code};
use crate::bitmap::{rotate90, Grid, MonoBitmap};
use crate::config::{Orientation, RenderConfig};
use crate::document::{DocumentView, LabelDocument};
use crate::epl::{
    document_bytes, emit_document, end_bytes, header_bytes, lemma_elements_bytes_of_four,
};
use crate::error::LabelError;
use crate::glyph::{
    line_height, passes_for, render_arabic_line_tight_1bit, render_title_tight_1bit,
    tight_rendering, tight_width, title_passes, LineGlyphs,
};
use crate::layout::{
    code_views, plan_elements, plan_fits, plan_label, planned_document, raster_views, slots_for,
    stacked_pair_slots, title_view,
};
use crate::raster::{image_to_row_bytes, pack_spec, PackedGrid, PackedRaster};
use crate::request::{
    arrangement_for, spec_clean_style, spec_plain_style, clean_style, plain_style, Arrangement,
    LabelStyle, LineStyle,
};
use vstd::prelude::*;

verus! {

/// The width of the standard label in dots.
pub const LABEL_W: u32 = 440;

/// The height of the standard label in dots.
pub const LABEL_H: u32 = 320;

/// A grid as the print head gets it: turned a quarter clockwise where the
/// driver is locked to landscape.
pub open spec fn oriented(g: Grid, orientation: Orientation) -> Grid {
    match orientation {
        Orientation::Portrait => g,
        Orientation::Landscape => g.rotated(),
    }
}

/// The packed block of a line: drawn tight, turned as the orientation
/// asks, and packed for the polarity of the print head.
pub open spec fn block_of(
    line: LineGlyphs,
    padding: u32,
    passes: nat,
    config: RenderConfig,
) -> PackedGrid {
    pack_spec(
        oriented(tight_rendering(line, padding, passes, None, config), config.orientation),
        config.polarity.inverts(),
    )
}

/// Whether the block of a line can be held: its width fits in 32 bits and
/// its pixels can be indexed.
pub open spec fn block_exists(line: LineGlyphs, padding: u32, config: RenderConfig) -> bool {
    &&& tight_width(line.glyphs@, padding, None) <= u32::MAX
    &&& tight_width(line.glyphs@, padding, None) * line_height(line.line_extent, config)
        <= usize::MAX
}

/// Turns a bitmap as the orientation asks and packs it.
pub fn pack_block(bitmap: MonoBitmap, config: &RenderConfig) -> (out: PackedRaster)
    ensures
        out@ == pack_spec(oriented(bitmap@, config.orientation), config.polarity.inverts()),
{
    let turned: MonoBitmap = match config.orientation {
        Orientation::Portrait => bitmap,
        Orientation::Landscape => rotate90(&bitmap),
    };
    image_to_row_bytes(&turned, config.polarity)
}

/// The packed block of a product line.
pub fn render_text_block(line: &LineGlyphs, style: LineStyle, config: &RenderConfig) -> (out:
    Option<PackedRaster>)
    requires
        config.wf(),
    ensures
        out is Some <==> block_exists(*line, style.padding, *config),
        out matches Some(block) ==> block@ == block_of(
            *line,
            style.padding,
            passes_for(style.bold, *config),
            *config,
        ),
{
    match render_arabic_line_tight_1bit(line, style.padding, style.bold, None, config) {
        None => None,
        Some(bitmap) => Some(pack_block(bitmap, config)),
    }
}

/// The packed block of a title.
pub fn render_title_block(line: &LineGlyphs, style: LineStyle, config: &RenderConfig) -> (out:
    Option<PackedRaster>)
    requires
        config.wf(),
    ensures
        out is Some <==> block_exists(*line, style.padding, *config),
        out matches Some(block) ==> block@ == block_of(
            *line,
            style.padding,
            title_passes(*config),
            *config,
        ),
{
    match render_title_tight_1bit(line, style.padding, config) {
        None => None,
        Some(bitmap) => Some(pack_block(bitmap, config)),
    }
}

/// The packed blocks of the product lines.
pub open spec fn line_blocks(
    lines: Seq<&LineGlyphs>,
    style: LineStyle,
    config: RenderConfig,
) -> Seq<PackedGrid> {
    Seq::new(
        lines.len(),
        |i: int| block_of(*lines[i], style.padding, passes_for(style.bold, config), config),
    )
}

/// The packed block of the title, where there is one.
pub open spec fn title_block(
    title: Option<&LineGlyphs>,
    style: LineStyle,
    config: RenderConfig,
) -> Option<PackedGrid> {
    match title {
        Some(t) => Some(block_of(*t, style.padding, title_passes(config), config)),
        None => None,
    }
}

/// Whether the blocks of title and lines can all be held.
pub open spec fn blocks_exist(
    title: Option<&LineGlyphs>,
    lines: Seq<&LineGlyphs>,
    style: LabelStyle,
    config: RenderConfig,
) -> bool {
    &&& title matches Some(t) ==> block_exists(*t, style.title.padding, config)
    &&& forall|i: int|
        0 <= i < lines.len() ==> block_exists(
            *#[trigger] lines[i],
            style.line.padding,
            config,
        )
}

/// Whether a label of these lines fits a canvas of this size: every block
/// can be held, and every product fits its cell.
pub open spec fn composition_fits(
    canvas_width: u32,
    canvas_height: u32,
    title: Option<&LineGlyphs>,
    lines: Seq<&LineGlyphs>,
    style: LabelStyle,
    config: RenderConfig,
) -> bool {
    &&& blocks_exist(title, lines, style, config)
    &&& plan_fits(
        slots_for(lines.len(), canvas_width, canvas_height),
        title_block(title, style.title, config),
        line_blocks(lines, style.line, config),
        config,
    )
}

/// The label of these lines and codes: the lines drawn, packed and placed.
pub open spec fn composed_document(
    canvas_width: u32,
    canvas_height: u32,
    title: Option<&LineGlyphs>,
    lines: Seq<&LineGlyphs>,
    codes: Seq<Seq<char>>,
    style: LabelStyle,
    config: RenderConfig,
) -> DocumentView {
    planned_document(
        canvas_width,
        canvas_height,
        title_block(title, style.title, config),
        line_blocks(lines, style.line, config),
        codes,
        config,
    )
}

/// Composes the print job for a label from the glyphs of its lines and the
/// codes of its products: every line is drawn, packed and placed, and the
/// label is written out as one byte stream.
///
/// A number of lines other than two or four, or a number of codes that
/// differs from it, is refused before anything is drawn. A label that does
/// not fit the canvas is refused before anything is written.
pub fn compose_label(
    canvas_width: u32,
    canvas_height: u32,
    title: Option<&LineGlyphs>,
    lines: &Vec<&LineGlyphs>,
    codes: &Vec<Ean13Code>,
    style: &LabelStyle,
    config: &RenderConfig,
) -> (out: Result<Vec<u8>, LabelError>)
    requires
        config.wf(),
    ensures
        out == Err::<Vec<u8>, LabelError>(LabelError::InvalidProductCount) <==> !((lines@.len()
            == 2 || lines@.len() == 4) && codes@.len() == lines@.len()),
        out == Err::<Vec<u8>, LabelError>(LabelError::CanvasTooSmall) <==> (lines@.len() == 2
            || lines@.len() == 4) && codes@.len() == lines@.len() && !composition_fits(
            canvas_width,
            canvas_height,
            title,
            lines@,
            *style,
            *config,
        ),
        out matches Ok(bytes) ==> bytes@ == document_bytes(
            composed_document(
                canvas_width,
                canvas_height,
                title,
                lines@,
                code_views(codes@),
                *style,
                *config,
            ),
        ),
        out matches Err(e) ==> e == LabelError::InvalidProductCount || e
            == LabelError::CanvasTooSmall,
{
    let n: usize = lines.len();
    if arrangement_for(n).is_err() || codes.len() != n {
        return Err(LabelError::InvalidProductCount);
    }
    let title_style: LineStyle = style.title;
    let line_style: LineStyle = style.line;
    let title_raster: Option<PackedRaster> = match title {
        None => None,
        Some(t) => match render_title_block(t, title_style, config) {
            Some(block) => Some(block),
            None => {
                return Err(LabelError::CanvasTooSmall);
            },
        },
    };
    let mut blocks: Vec<PackedRaster> = Vec::new();
    let mut i: usize = 0;
    while i < n
        invariant
            config.wf(),
            n == lines@.len(),
            n == codes@.len(),
            n == 2 || n == 4,
            i <= n,
            blocks@.len() == i,
            line_style == style.line,
            title_style == style.title,
            title matches Some(t) ==> block_exists(*t, title_style.padding, *config),
            forall|k: int|
                0 <= k < i ==> block_exists(*#[trigger] lines@[k], line_style.padding, *config),
            forall|k: int|
                0 <= k < i ==> (#[trigger] blocks@[k])@ == block_of(
                    *lines@[k],
                    line_style.padding,
                    passes_for(line_style.bold, *config),
                    *config,
                ),
        decreases n - i,
    {
        match render_text_block(lines[i], line_style, config) {
            Some(block) => {
                blocks.push(block);
            },
            None => {
                proof {
                    assert(!block_exists(*lines@[i as int], line_style.padding, *config));
                }
                return Err(LabelError::CanvasTooSmall);
            },
        }
        i += 1;
    }
    proof {
        assert(raster_views(blocks@) =~= line_blocks(lines@, line_style, *config));
    }
    let planned: Result<LabelDocument, LabelError> = match &title_raster {
        Some(t) => plan_label(canvas_width, canvas_height, Some(t), &blocks, codes, config),
        None => plan_label(canvas_width, canvas_height, None, &blocks, codes, config),
    };
    match planned {
        Ok(doc) => Ok(emit_document(&doc)),
        Err(e) => Err(e),
    }
}

/// The complete codes that barcode strings stand for.
pub open spec fn codes_of(barcodes: Seq<&str>) -> Seq<Seq<char>> {
    Seq::new(barcodes.len(), |i: int| with_checksum(payload_of(barcodes[i]@)))
}

/// Whether one of the first `count` barcode strings holds no digit.
pub open spec fn some_blank(barcodes: Seq<&str>, count: int) -> bool {
    exists|i: int| 0 <= i < count && digits_of((#[trigger] barcodes[i])@).len() == 0
}

/// What building a label comes to: the refusals in their order, or the
/// bytes of the job.
pub open spec fn label_outcome(
    canvas_width: u32,
    canvas_height: u32,
    title: Option<&LineGlyphs>,
    lines: Seq<&LineGlyphs>,
    barcodes: Seq<&str>,
    style: LabelStyle,
    config: RenderConfig,
) -> Result<Seq<u8>, LabelError> {
    if !((lines.len() == 2 || lines.len() == 4) && barcodes.len() == lines.len()) {
        Err(LabelError::InvalidProductCount)
    } else if some_blank(barcodes, barcodes.len() as int) {
        Err(LabelError::InvalidBarcodeDigits)
    } else if !composition_fits(
        canvas_width,
        canvas_height,
        title,
        lines,
        style,
        config,
    ) {
        Err(LabelError::CanvasTooSmall)
    } else {
        Ok(
            document_bytes(
                composed_document(
                    canvas_width,
                    canvas_height,
                    title,
                    lines,
                    codes_of(barcodes),
                    style,
                    config,
                ),
            ),
        )
    }
}

/// The job for two products without a title holds, in this order and
/// nothing else: the head, the image block of the first product and its
/// barcode with the complete code, the image block of the second product
/// and its barcode, and the print directive. So there are exactly two
/// image blocks, each followed by the barcode of its product, and the job
/// ends with the one print directive.
pub proof fn lemma_untitled_pair_stream(
    canvas_width: u32,
    canvas_height: u32,
    lines: Seq<&LineGlyphs>,
    barcodes: Seq<&str>,
    style: LabelStyle,
    config: RenderConfig,
)
    requires
        lines.len() == 2,
        barcodes.len() == 2,
        label_outcome(canvas_width, canvas_height, None, lines, barcodes, style, config) is Ok,
    ensures
        label_outcome(
            canvas_width,
            canvas_height,
            None,
            lines,
            barcodes,
            style,
            config,
        ) matches Ok(bytes) && ({
            let slots = stacked_pair_slots(canvas_width, canvas_height);
            let blocks = line_blocks(lines, style.line, config);
            let codes = codes_of(barcodes);
            bytes == header_bytes(
                canvas_width as nat,
                canvas_height as nat,
                config.label_gap as nat,
                config.darkness as nat,
                config.speed as nat,
            ) + (slots[0].text_element(None, blocks[0]).bytes() + slots[0].barcode_element(
                None,
                blocks[0],
                codes[0],
                config,
            ).bytes() + slots[1].text_element(None, blocks[1]).bytes() + slots[1].barcode_element(
                None,
                blocks[1],
                codes[1],
                config,
            ).bytes()) + end_bytes()
        }),
        codes_of(barcodes)[0] == with_checksum(payload_of(barcodes[0]@)),
        codes_of(barcodes)[1] == with_checksum(payload_of(barcodes[1]@)),
{
    let slots = stacked_pair_slots(canvas_width, canvas_height);
    let blocks = line_blocks(lines, style.line, config);
    let codes = codes_of(barcodes);
    let t0 = slots[0].text_element(None, blocks[0]);
    let b0 = slots[0].barcode_element(None, blocks[0], codes[0], config);
    let t1 = slots[1].text_element(None, blocks[1]);
    let b1 = slots[1].barcode_element(None, blocks[1], codes[1], config);
    reveal_with_fuel(plan_elements, 3);
    let elements = plan_elements(slots, None, blocks, codes, config, 2);
    assert(elements =~= seq![t0, b0, t1, b1]);
    lemma_elements_bytes_of_four(t0, b0, t1, b1);
}

/// The bytes of a job, or the refusal.
pub open spec fn outcome_of(out: Result<Vec<u8>, LabelError>) -> Result<Seq<u8>, LabelError> {
    match out {
        Ok(bytes) => Ok(bytes@),
        Err(e) => Err(e),
    }
}

/// Builds the print job for a label on a canvas of the given size from
/// the glyphs of its lines and the barcode strings of its products.
///
/// Refused are, in this order: a number of lines other than two or four,
/// or a number of barcodes that differs from it; a barcode without any
/// digit; a label that does not fit the canvas. Nothing is written before
/// all of that is known.
pub fn build_label(
    canvas_width: u32,
    canvas_height: u32,
    title: Option<&LineGlyphs>,
    lines: &Vec<&LineGlyphs>,
    barcodes: &Vec<&str>,
    style: &LabelStyle,
    config: &RenderConfig,
) -> (out: Result<Vec<u8>, LabelError>)
    requires
        config.wf(),
    ensures
        outcome_of(out) == label_outcome(
            canvas_width,
            canvas_height,
            title,
            lines@,
            barcodes@,
            *style,
            *config,
        ),
{
    let n: usize = lines.len();
    if !(n == 2 || n == 4) || barcodes.len() != n {
        return Err(LabelError::InvalidProductCount);
    }
    let mut codes: Vec<Ean13Code> = Vec::new();
    let mut i: usize = 0;
    while i < n
        invariant
            n == barcodes@.len(),
            n == lines@.len(),
            n == 2 || n == 4,
            i <= n,
            codes@.len() == i,
            !some_blank(barcodes@, i as int),
            forall|k: int|
                0 <= k < i ==> (#[trigger] codes@[k])@ == with_checksum(payload_of(barcodes@[k]@)),
        decreases n - i,
    {
        match normalize_ean13(barcodes[i]) {
            Ok(code) => {
                codes.push(code);
            },
            Err(e) => {
                proof {
                    assert(digits_of(barcodes@[i as int]@).len() == 0);
                }
                return Err(e);
            },
        }
        i += 1;
    }
    proof {
        assert(code_views(codes@) =~= codes_of(barcodes@));
    }
    compose_label(canvas_width, canvas_height, title, lines, &codes, style, config)
}

/// The configuration of the plain two-product label: less heat, wider
/// wide modules and higher bars than the default.
pub open spec fn spec_plain_config() -> RenderConfig {
    RenderConfig { darkness: 7, wide: 4, barcode_height: 60, ..RenderConfig::spec_standard() }
}

/// The configuration of the clean two-product label: light and slow for
/// clean bars, which are low enough to leave room for the digits.
pub open spec fn spec_clean_config() -> RenderConfig {
    RenderConfig {
        darkness: 6,
        speed: 3,
        wide: 4,
        barcode_height: 52,
        ..RenderConfig::spec_standard()
    }
}

/// The configuration of the plain two-product label.
pub fn plain_config() -> (config: RenderConfig)
    ensures
        config == spec_plain_config(),
        config.wf(),
{
    let mut config: RenderConfig = RenderConfig::standard();
    config.darkness = 7;
    config.wide = 4;
    config.barcode_height = 60;
    config
}

/// The configuration of the clean two-product label.
pub fn clean_config() -> (config: RenderConfig)
    ensures
        config == spec_clean_config(),
        config.wf(),
{
    let mut config: RenderConfig = RenderConfig::standard();
    config.darkness = 6;
    config.speed = 3;
    config.wide = 4;
    config.barcode_height = 52;
    config
}

/// Builds the job for two products, one above the other, on the standard
/// label of 440 by 320 dots with the given configuration.
fn build_pair(
    title: Option<&LineGlyphs>,
    line1: &LineGlyphs,
    barcode1: &str,
    line2: &LineGlyphs,
    barcode2: &str,
    style: &LabelStyle,
    config: &RenderConfig,
) -> (out: Result<Vec<u8>, LabelError>)
    requires
        config.wf(),
    ensures
        outcome_of(out) == label_outcome(
            LABEL_W,
            LABEL_H,
            title,
            seq![line1, line2],
            seq![barcode1, barcode2],
            *style,
            *config,
        ),
{
    let mut lines: Vec<&LineGlyphs> = Vec::new();
    lines.push(line1);
    lines.push(line2);
    let mut barcodes: Vec<&str> = Vec::new();
    barcodes.push(barcode1);
    barcodes.push(barcode2);
    proof {
        assert(lines@ =~= seq![line1, line2]);
        assert(barcodes@ =~= seq![barcode1, barcode2]);
    }
    build_label(LABEL_W, LABEL_H, title, &lines, &barcodes, style, config)
}

/// Builds the job for two products with a title above each, on the
/// standard label with the standard configuration. `brand` holds the
/// glyphs of the title, `line1` and `line2` those of the product lines, all
/// in display order.
pub fn build_two_product_label_with_brand(
    brand: &LineGlyphs,
    line1: &LineGlyphs,
    barcode1: &str,
    line2: &LineGlyphs,
    barcode2: &str,
) -> (out: Result<Vec<u8>, LabelError>)
    ensures
        outcome_of(out) == label_outcome(
            LABEL_W,
            LABEL_H,
            Some(brand),
            seq![line1, line2],
            seq![barcode1, barcode2],
            Arrangement::StackedPair.spec_style(),
            RenderConfig::spec_standard(),
        ),
{
    build_pair(
        Some(brand),
        line1,
        barcode1,
        line2,
        barcode2,
        &Arrangement::StackedPair.style(),
        &RenderConfig::standard(),
    )
}

/// Builds the job for two products without a title, on the standard label
/// in the plain style with the plain configuration.
pub fn build_two_product_label(
    line1: &LineGlyphs,
    barcode1: &str,
    line2: &LineGlyphs,
    barcode2: &str,
) -> (out: Result<Vec<u8>, LabelError>)
    ensures
        outcome_of(out) == label_outcome(
            LABEL_W,
            LABEL_H,
            None,
            seq![line1, line2],
            seq![barcode1, barcode2],
            spec_plain_style(),
            spec_plain_config(),
        ),
{
    build_pair(None, line1, barcode1, line2, barcode2, &plain_style(), &plain_config())
}

/// Builds the job for two products whose lines were put together by the
/// caller: the same label as [`build_two_product_label`] gives.
pub fn build_two_product_label_clean(
    line1: &LineGlyphs,
    barcode1: &str,
    line2: &LineGlyphs,
    barcode2: &str,
) -> (out: Result<Vec<u8>, LabelError>)
    ensures
        outcome_of(out) == label_outcome(
            LABEL_W,
            LABEL_H,
            None,
            seq![line1, line2],
            seq![barcode1, barcode2],
            spec_plain_style(),
            spec_plain_config(),
        ),
{
    build_pair(None, line1, barcode1, line2, barcode2, &plain_style(), &plain_config())
}

/// Builds the job for two products without a title, on the standard label
/// in the clean style with the clean configuration.
pub fn build_two_product_label_clean_centered(
    line1: &LineGlyphs,
    barcode1: &str,
    line2: &LineGlyphs,
    barcode2: &str,
) -> (out: Result<Vec<u8>, LabelError>)
    ensures
        outcome_of(out) == label_outcome(
            LABEL_W,
            LABEL_H,
            None,
            seq![line1, line2],
            seq![barcode1, barcode2],
            spec_clean_style(),
            spec_clean_config(),
        ),
{
    build_pair(None, line1, barcode1, line2, barcode2, &clean_style(), &clean_config())
}

/// Builds the job for four products in a grid of two by two with a title
/// above each, on the standard label with the standard configuration.
pub fn build_four_product_label_with_brand(
    brand: &LineGlyphs,
    line1: &LineGlyphs,
    barcode1: &str,
    line2: &LineGlyphs,
    barcode2: &str,
    line3: &LineGlyphs,
    barcode3: &str,
    line4: &LineGlyphs,
    barcode4: &str,
) -> (out: Result<Vec<u8>, LabelError>)
    ensures
        outcome_of(out) == label_outcome(
            LABEL_W,
            LABEL_H,
            Some(brand),
            seq![line1, line2, line3, line4],
            seq![barcode1, barcode2, barcode3, barcode4],
            Arrangement::Grid.spec_style(),
            RenderConfig::spec_standard(),
        ),
{
    let mut lines: Vec<&LineGlyphs> = Vec::new();
    lines.push(line1);
    lines.push(line2);
    lines.push(line3);
    lines.push(line4);
    let mut barcodes: Vec<&str> = Vec::new();
    barcodes.push(barcode1);
    barcodes.push(barcode2);
    barcodes.push(barcode3);
    barcodes.push(barcode4);
    proof {
        assert(lines@ =~= seq![line1, line2, line3, line4]);
        assert(barcodes@ =~= seq![barcode1, barcode2, barcode3, barcode4]);
    }
    build_label(
        LABEL_W,
        LABEL_H,
        Some(brand),
        &lines,
        &barcodes,
        &Arrangement::Grid.style(),
        &RenderConfig::standard(),
    )
}

} // verus!
