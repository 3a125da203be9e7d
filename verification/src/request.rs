use crate::barcode::{digits_of, normalize_ean13, payload_of, with_checksum, Ean13Code};
use crate::error::LabelError;
use crate::font::{decode_font, font_decodes};
use crate::shaper::{bidi_then_shape, display_order};
use vstd::prelude::*;

verus! {

/// One product of a label.
pub struct Product {
    pub name: String,
    pub price: String,
    pub barcode: String,
}

/// What a label is asked to show: a title or none, two or four products,
/// and the font to set them in.
pub struct LabelRequest {
    pub title: Option<String>,
    pub products: Vec<Product>,
    pub font: Vec<u8>,
}

/// The two arrangements of products on a label.
#[derive(Clone, Copy, Debug, PartialEq, Eq, Structural)]
pub enum Arrangement {
    /// Two products, one above the other.
    StackedPair,
    /// Four products in two rows of two.
    Grid,
}

/// How a line is laid out and drawn.
#[derive(Clone, Copy, Debug, PartialEq, Eq, Structural)]
pub struct LineStyle {
    /// The size at which the font lays the glyphs out, in pixels.
    pub font_px: u32,
    /// Free pixels left and right of the text.
    pub padding: u32,
    /// Whether the line is drawn in bold.
    pub bold: bool,
}

/// How the title and the product lines of a label are set.
#[derive(Clone, Copy, Debug, PartialEq, Eq, Structural)]
pub struct LabelStyle {
    pub title: LineStyle,
    pub line: LineStyle,
}

/// The style of the plain two-product label: small regular lines with wide
/// padding.
pub open spec fn spec_plain_style() -> LabelStyle {
    LabelStyle {
        title: LineStyle { font_px: 40, padding: 2, bold: true },
        line: LineStyle { font_px: 30, padding: 12, bold: false },
    }
}

/// The style of the clean two-product label: larger regular lines.
pub open spec fn spec_clean_style() -> LabelStyle {
    LabelStyle {
        title: LineStyle { font_px: 40, padding: 2, bold: true },
        line: LineStyle { font_px: 36, padding: 10, bold: false },
    }
}

/// The style of the plain two-product label.
pub fn plain_style() -> (style: LabelStyle)
    ensures
        style == spec_plain_style(),
{
    LabelStyle {
        title: LineStyle { font_px: 40, padding: 2, bold: true },
        line: LineStyle { font_px: 30, padding: 12, bold: false },
    }
}

/// The style of the clean two-product label.
pub fn clean_style() -> (style: LabelStyle)
    ensures
        style == spec_clean_style(),
{
    LabelStyle {
        title: LineStyle { font_px: 40, padding: 2, bold: true },
        line: LineStyle { font_px: 36, padding: 10, bold: false },
    }
}

impl Arrangement {
    /// The number of products on the label.
    pub open spec fn count(self) -> nat {
        match self {
            Arrangement::StackedPair => 2,
            Arrangement::Grid => 4,
        }
    }

    /// How the product lines are set: large on the stacked pair, smaller
    /// in the grid, bold in both.
    pub open spec fn spec_line_style(self) -> LineStyle {
        match self {
            Arrangement::StackedPair => LineStyle { font_px: 52, padding: 3, bold: true },
            Arrangement::Grid => LineStyle { font_px: 36, padding: 2, bold: true },
        }
    }

    /// How the title is set.
    pub open spec fn spec_title_style(self) -> LineStyle {
        LineStyle { font_px: 40, padding: 2, bold: true }
    }

    /// How the product lines are set.
    pub fn line_style(self) -> (style: LineStyle)
        ensures
            style == self.spec_line_style(),
    {
        match self {
            Arrangement::StackedPair => LineStyle { font_px: 52, padding: 3, bold: true },
            Arrangement::Grid => LineStyle { font_px: 36, padding: 2, bold: true },
        }
    }

    /// How the title is set.
    pub fn title_style(self) -> (style: LineStyle)
        ensures
            style == self.spec_title_style(),
    {
        LineStyle { font_px: 40, padding: 2, bold: true }
    }

    /// How title and lines are set on a label with a brand.
    pub open spec fn spec_style(self) -> LabelStyle {
        LabelStyle { title: self.spec_title_style(), line: self.spec_line_style() }
    }

    /// How title and lines are set on a label with a brand.
    pub fn style(self) -> (style: LabelStyle)
        ensures
            style == self.spec_style(),
    {
        LabelStyle { title: self.title_style(), line: self.line_style() }
    }
}

/// The arrangement for a number of products: there is one for two and one
/// for four.
pub open spec fn spec_arrangement_for(count: nat) -> Option<Arrangement> {
    if count == 2 {
        Some(Arrangement::StackedPair)
    } else if count == 4 {
        Some(Arrangement::Grid)
    } else {
        None
    }
}

/// The arrangement for a number of products. Any number but two and four
/// is refused.
pub fn arrangement_for(count: usize) -> (out: Result<Arrangement, LabelError>)
    ensures
        out is Ok <==> count == 2 || count == 4,
        out matches Ok(a) ==> Some(a) == spec_arrangement_for(count as nat) && a.count() == count,
        out matches Err(e) ==> e == LabelError::InvalidProductCount,
{
    if count == 2 {
        Ok(Arrangement::StackedPair)
    } else if count == 4 {
        Ok(Arrangement::Grid)
    } else {
        Err(LabelError::InvalidProductCount)
    }
}

/// The line of a product in logical order: the name, two spaces, the
/// price, a space and the currency.
pub open spec fn product_line(name: Seq<char>, price: Seq<char>) -> Seq<char> {
    name + "  "@ + price + " "@ + "\u{62c}.\u{645}"@
}

/// The line of a product in logical order.
pub fn product_text(name: &str, price: &str) -> (out: String)
    ensures
        out@ == product_line(name@, price@),
{
    let mut out: String = name.to_owned();
    out.append("  ");
    out.append(price);
    out.append(" ");
    out.append("\u{62c}.\u{645}");
    out
}

/// The line of a product on the plain label: the name, four spaces and
/// the price.
pub open spec fn plain_product_line(name: Seq<char>, price: Seq<char>) -> Seq<char> {
    name + "    "@ + price
}

/// The line of a product on the plain label, in logical order.
pub fn plain_product_text(name: &str, price: &str) -> (out: String)
    ensures
        out@ == plain_product_line(name@, price@),
{
    let mut out: String = name.to_owned();
    out.append("    ");
    out.append(price);
    out
}

/// The line of a product on the clean label: the name, four spaces, the
/// price, a space and the currency.
pub open spec fn clean_product_line(name: Seq<char>, price: Seq<char>) -> Seq<char> {
    name + "    "@ + price + " "@ + "\u{62c}.\u{645}"@
}

/// The line of a product on the clean label, in logical order.
pub fn clean_product_text(name: &str, price: &str) -> (out: String)
    ensures
        out@ == clean_product_line(name@, price@),
{
    let mut out: String = name.to_owned();
    out.append("    ");
    out.append(price);
    out.append(" ");
    out.append("\u{62c}.\u{645}");
    out
}

/// A label whose texts stand in display order and whose barcodes are
/// complete, ready for the font to lay the glyphs out.
pub struct LabelJob {
    pub arrangement: Arrangement,
    /// The title in display order, where there is one.
    pub title: Option<String>,
    /// The line of each product in display order.
    pub lines: Vec<String>,
    /// The code of each product.
    pub codes: Vec<Ean13Code>,
}

/// The title of a job, where there is one.
pub open spec fn job_title(title: Option<String>) -> Option<Seq<char>> {
    match title {
        Some(t) => Some(t@),
        None => None,
    }
}

/// The title of a request in display order, where there is one.
pub open spec fn shaped_title(title: Option<String>) -> Option<Seq<char>> {
    match title {
        Some(t) => Some(display_order(t@)),
        None => None,
    }
}

/// Whether one of the first `count` products has a barcode without any
/// digit.
pub open spec fn some_barcode_empty(products: Seq<Product>, count: int) -> bool {
    exists|i: int| 0 <= i < count && digits_of((#[trigger] products[i]).barcode@).len() == 0
}

/// Whether the number of products is one that has an arrangement.
pub open spec fn count_allowed(request: LabelRequest) -> bool {
    request.products@.len() == 2 || request.products@.len() == 4
}

/// Whether every barcode of the request holds a digit.
pub open spec fn barcodes_hold_digits(request: LabelRequest) -> bool {
    !some_barcode_empty(request.products@, request.products@.len() as int)
}

/// Whether a job is what its request asks for: the arrangement for the
/// number of products, the title and every product line in display order,
/// and the complete code of every product.
pub open spec fn job_matches(job: LabelJob, request: LabelRequest) -> bool {
    &&& Some(job.arrangement) == spec_arrangement_for(request.products@.len())
    &&& job_title(job.title) == shaped_title(request.title)
    &&& job.lines@.len() == request.products@.len()
    &&& job.codes@.len() == request.products@.len()
    &&& forall|i: int|
        0 <= i < request.products@.len() ==> (#[trigger] job.lines@[i])@ == display_order(
            product_line(request.products@[i].name@, request.products@[i].price@),
        )
    &&& forall|i: int|
        0 <= i < request.products@.len() ==> (#[trigger] job.codes@[i])@ == with_checksum(
            payload_of(request.products@[i].barcode@),
        )
}

/// Checks a request and brings its texts and barcodes into the form in
/// which they are drawn, before any glyph is laid out. A number of
/// products other than two or four is refused first; then a barcode
/// without any digit. Every other request gets its job.
pub fn prepare_label(request: &LabelRequest) -> (out: Result<LabelJob, LabelError>)
    ensures
        out is Ok <==> count_allowed(*request) && barcodes_hold_digits(*request),
        out matches Ok(job) ==> job_matches(job, *request),
        out matches Err(e) ==> e == (if !count_allowed(*request) {
            LabelError::InvalidProductCount
        } else {
            LabelError::InvalidBarcodeDigits
        }),
{
    let n: usize = request.products.len();
    let arrangement: Arrangement = match arrangement_for(n) {
        Ok(a) => a,
        Err(e) => {
            return Err(e);
        },
    };
    let mut lines: Vec<String> = Vec::new();
    let mut codes: Vec<Ean13Code> = Vec::new();
    let mut i: usize = 0;
    while i < n
        invariant
            n == request.products@.len(),
            n == 2 || n == 4,
            i <= n,
            lines@.len() == i,
            codes@.len() == i,
            !some_barcode_empty(request.products@, i as int),
            forall|k: int|
                0 <= k < i ==> (#[trigger] lines@[k])@ == display_order(
                    product_line(request.products@[k].name@, request.products@[k].price@),
                ),
            forall|k: int|
                0 <= k < i ==> (#[trigger] codes@[k])@ == with_checksum(
                    payload_of(request.products@[k].barcode@),
                ),
        decreases n - i,
    {
        let product: &Product = &request.products[i];
        match normalize_ean13(product.barcode.as_str()) {
            Err(e) => {
                proof {
                    assert(digits_of(request.products@[i as int].barcode@).len() == 0);
                }
                return Err(e);
            },
            Ok(code) => {
                codes.push(code);
            },
        }
        let text: String = product_text(product.name.as_str(), product.price.as_str());
        lines.push(bidi_then_shape(text.as_str()));
        i += 1;
    }
    let title: Option<String> = match &request.title {
        Some(t) => Some(bidi_then_shape(t.as_str())),
        None => None,
    };
    Ok(LabelJob { arrangement, title, lines, codes })
}

/// Checks a request in full before anything is drawn: the number of
/// products first, then the barcodes, then the font. A request that passes
/// gets its job and its parsed font, which is parsed once for all lines.
pub fn check_request<'a>(request: &'a LabelRequest) -> (out: Result<
    (LabelJob, rusttype::Font<'a>),
    LabelError,
>)
    ensures
        out is Ok <==> count_allowed(*request) && barcodes_hold_digits(*request) && font_decodes(
            request.font@,
        ),
        out matches Ok(checked) ==> job_matches(checked.0, *request),
        out matches Err(e) ==> e == (if !count_allowed(*request) {
            LabelError::InvalidProductCount
        } else if !barcodes_hold_digits(*request) {
            LabelError::InvalidBarcodeDigits
        } else {
            LabelError::FontDecodeError
        }),
{
    let job: LabelJob = match prepare_label(request) {
        Ok(job) => job,
        Err(e) => {
            return Err(e);
        },
    };
    match decode_font(request.font.as_slice()) {
        Ok(font) => Ok((job, font)),
        Err(e) => Err(e),
    }
}

} // verus!
