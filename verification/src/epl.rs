use crate::barcode::{digits_of, normalize_ean13, payload_of, with_checksum, Ean13Code};
use crate::bitmap::MonoBitmap;
use crate::config::Polarity;
use crate::decimal::{decimal_digits, push_decimal};
use crate::document::{DocumentView, ElementView, LabelDocument, LabelElement};
use crate::error::LabelError;
use crate::raster::{image_to_row_bytes, pack_spec, PackedGrid, PackedRaster};
use crate::text::ascii_bytes;
use vstd::prelude::*;

verus! {

/// The two bytes that end every directive: carriage return, line feed.
pub open spec fn line_end() -> Seq<u8> {
    seq![13u8, 10u8]
}

/// A directive: its text followed by the line end.
pub open spec fn line_bytes(text: Seq<u8>) -> Seq<u8> {
    text + line_end()
}

/// A comma.
pub open spec fn comma() -> Seq<u8> {
    seq![',' as u8]
}

/// The head of a job: clear the buffer (`N`), label width (`q`), label
/// length and gap (`Q`), darkness (`D`) and speed (`S`).
pub open spec fn header_bytes(width: nat, height: nat, gap: nat, darkness: nat, speed: nat) -> Seq<
    u8,
> {
    line_bytes(seq!['N' as u8]) + line_bytes(seq!['q' as u8] + decimal_digits(width)) + line_bytes(
        seq!['Q' as u8] + decimal_digits(height) + comma() + decimal_digits(gap),
    ) + line_bytes(seq!['D' as u8] + decimal_digits(darkness)) + line_bytes(
        seq!['S' as u8] + decimal_digits(speed),
    )
}

/// The raster image directive: the `GW` line with position, bytes per row
/// and height, then the packed rows as they are, then a line end.
pub open spec fn image_bytes(x: nat, y: nat, raster: PackedGrid) -> Seq<u8> {
    line_bytes(
        seq!['G' as u8, 'W' as u8] + decimal_digits(x) + comma() + decimal_digits(y) + comma()
            + decimal_digits(raster.bytes_per_row()) + comma() + decimal_digits(raster.height),
    ) + raster.rows + line_end()
}

/// The letter that switches the printed digits on (`B`) or off (`N`).
pub open spec fn hri_flag(visible: bool) -> u8 {
    if visible {
        'B' as u8
    } else {
        'N' as u8
    }
}

/// The barcode directive for an EAN-13 code (type `E30`): position,
/// rotation, type, module widths, bar height, the flag for the printed
/// digits, and the digits between double quotes.
pub open spec fn barcode_bytes(
    x: nat,
    y: nat,
    rotation: nat,
    narrow: nat,
    wide: nat,
    height: nat,
    hri_visible: bool,
    digits: Seq<u8>,
) -> Seq<u8> {
    line_bytes(
        seq!['B' as u8] + decimal_digits(x) + comma() + decimal_digits(y) + comma()
            + decimal_digits(rotation) + comma() + seq!['E' as u8, '3' as u8, '0' as u8] + comma()
            + decimal_digits(narrow) + comma() + decimal_digits(wide) + comma() + decimal_digits(
            height,
        ) + comma() + seq![hri_flag(hri_visible)] + comma() + seq!['"' as u8] + digits
            + seq!['"' as u8],
    )
}

/// The line directive: position, thickness and length.
pub open spec fn rule_bytes(x: nat, y: nat, thickness: nat, length: nat) -> Seq<u8> {
    line_bytes(
        seq!['L' as u8, 'O' as u8] + decimal_digits(x) + comma() + decimal_digits(y) + comma()
            + decimal_digits(thickness) + comma() + decimal_digits(length),
    )
}

/// The end of a job: print one copy.
pub open spec fn end_bytes() -> Seq<u8> {
    line_bytes(seq!['P' as u8, '1' as u8])
}

/// `count` dots of one by one, one below the other, from row `y` down.
pub open spec fn dot_column_bytes(x: nat, y: nat, count: nat) -> Seq<u8>
    decreases count,
{
    if count == 0 {
        Seq::empty()
    } else {
        dot_column_bytes(x, y, (count - 1) as nat) + rule_bytes(x, (y + count - 1) as nat, 1, 1)
    }
}

/// Dashes of eight dots, one every fourteen dots from `x` on, as long as a
/// dash ends before `end`.
pub open spec fn dashes_bytes(x: nat, end: nat, y: nat) -> Seq<u8>
    decreases end + 14 - x,
{
    if x + 8 < end {
        rule_bytes(x, y, 1, 8) + dashes_bytes(x + 14, end, y)
    } else {
        Seq::empty()
    }
}

/// The directives of the elements, one after the other in their order.
pub open spec fn elements_bytes(elements: Seq<ElementView>) -> Seq<u8>
    decreases elements.len(),
{
    if elements.len() == 0 {
        Seq::empty()
    } else {
        elements_bytes(elements.drop_last()) + elements.last().bytes()
    }
}

/// The whole job for a label: the head, the directive of every element in
/// document order, and the end.
pub open spec fn document_bytes(doc: DocumentView) -> Seq<u8> {
    header_bytes(doc.canvas_width, doc.canvas_height, doc.gap, doc.darkness, doc.speed)
        + elements_bytes(doc.elements) + end_bytes()
}

/// The directives of two runs of elements, one put behind the other, are
/// the directives of the first followed by those of the second: nothing
/// is reordered, dropped or merged.
pub proof fn lemma_elements_bytes_concat(a: Seq<ElementView>, b: Seq<ElementView>)
    ensures
        elements_bytes(a + b) == elements_bytes(a) + elements_bytes(b),
    decreases b.len(),
{
    if b.len() == 0 {
        assert(a + b =~= a);
    } else {
        lemma_elements_bytes_concat(a, b.drop_last());
        assert((a + b).drop_last() =~= a + b.drop_last());
        assert((a + b).last() == b.last());
    }
}

/// The head of a job for the standard label of 440 by 320 dots with a gap
/// of 24 starts with the lines `N`, `q440` and `Q320,24`, whatever
/// darkness and speed are.
pub proof fn lemma_standard_head(darkness: nat, speed: nat)
    ensures
        header_bytes(440, 320, 24, darkness, speed) == seq![
            'N' as u8,
            13u8,
            10u8,
            'q' as u8,
            '4' as u8,
            '4' as u8,
            '0' as u8,
            13u8,
            10u8,
            'Q' as u8,
            '3' as u8,
            '2' as u8,
            '0' as u8,
            ',' as u8,
            '2' as u8,
            '4' as u8,
            13u8,
            10u8,
        ] + line_bytes(seq!['D' as u8] + decimal_digits(darkness)) + line_bytes(
            seq!['S' as u8] + decimal_digits(speed),
        ),
{
    reveal_with_fuel(decimal_digits, 4);
    assert(decimal_digits(440) =~= seq!['4' as u8, '4' as u8, '0' as u8]);
    assert(decimal_digits(320) =~= seq!['3' as u8, '2' as u8, '0' as u8]);
    assert(decimal_digits(24) =~= seq!['2' as u8, '4' as u8]);
    let head = line_bytes(seq!['N' as u8]) + line_bytes(seq!['q' as u8] + decimal_digits(440))
        + line_bytes(seq!['Q' as u8] + decimal_digits(320) + comma() + decimal_digits(24));
    assert(head =~= seq![
        'N' as u8,
        13u8,
        10u8,
        'q' as u8,
        '4' as u8,
        '4' as u8,
        '0' as u8,
        13u8,
        10u8,
        'Q' as u8,
        '3' as u8,
        '2' as u8,
        '0' as u8,
        ',' as u8,
        '2' as u8,
        '4' as u8,
        13u8,
        10u8,
    ]);
}

/// The directives of four elements are their directives one after the
/// other.
pub proof fn lemma_elements_bytes_of_four(
    a: ElementView,
    b: ElementView,
    c: ElementView,
    d: ElementView,
)
    ensures
        elements_bytes(seq![a, b, c, d]) == a.bytes() + b.bytes() + c.bytes() + d.bytes(),
{
    let all = seq![a, b, c, d];
    let three = seq![a, b, c];
    let two = seq![a, b];
    let one = seq![a];
    assert(all.drop_last() =~= three);
    assert(three.drop_last() =~= two);
    assert(two.drop_last() =~= one);
    assert(one.drop_last() =~= Seq::<ElementView>::empty());
    assert(elements_bytes(one.drop_last()) =~= Seq::<u8>::empty());
    assert(elements_bytes(one) =~= a.bytes());
    assert(elements_bytes(two) == a.bytes() + b.bytes());
    assert(elements_bytes(three) == a.bytes() + b.bytes() + c.bytes());
}

/// Whatever two emissions of one document give, they give the same bytes.
pub proof fn lemma_emission_deterministic(doc: DocumentView, first: Seq<u8>, second: Seq<u8>)
    requires
        first == document_bytes(doc),
        second == document_bytes(doc),
    ensures
        first == second,
{
}

/// Appends the line end.
fn push_line_end(buf: &mut Vec<u8>)
    ensures
        final(buf)@ == old(buf)@ + line_end(),
{
    buf.push(13);
    buf.push(10);
    proof {
        assert(buf@ =~= old(buf)@ + line_end());
    }
}

/// Appends one byte.
fn push_byte(buf: &mut Vec<u8>, b: u8)
    ensures
        final(buf)@ == old(buf)@ + seq![b],
{
    buf.push(b);
    proof {
        assert(buf@ =~= old(buf)@ + seq![b]);
    }
}

/// Appends a comma.
fn push_comma(buf: &mut Vec<u8>)
    ensures
        final(buf)@ == old(buf)@ + comma(),
{
    buf.push(',' as u8);
    proof {
        assert(buf@ =~= old(buf)@ + comma());
    }
}

/// Appends a comma and the decimal notation of `n`.
fn push_field(buf: &mut Vec<u8>, n: u64)
    ensures
        final(buf)@ == old(buf)@ + comma() + decimal_digits(n as nat),
{
    push_comma(buf);
    push_decimal(buf, n);
}

/// A fresh text that holds the two-letter name of a directive and the
/// decimal notation of its first field.
fn directive_start(first: char, second: char, n: u64) -> (text: Vec<u8>)
    requires
        first as u32 <= 127,
        second as u32 <= 127,
    ensures
        text@ == seq![first as u8, second as u8] + decimal_digits(n as nat),
{
    let mut text: Vec<u8> = Vec::new();
    text.push(first as u8);
    text.push(second as u8);
    push_decimal(&mut text, n);
    text
}

/// A fresh text that holds the one-letter name of a directive and the
/// decimal notation of its first field.
fn short_directive_start(name: char, n: u64) -> (text: Vec<u8>)
    requires
        name as u32 <= 127,
    ensures
        text@ == seq![name as u8] + decimal_digits(n as nat),
{
    let mut text: Vec<u8> = Vec::new();
    text.push(name as u8);
    push_decimal(&mut text, n);
    text
}

/// Appends `text` as one directive: its bytes and the line end.
fn push_line(buf: &mut Vec<u8>, text: Vec<u8>)
    ensures
        final(buf)@ == old(buf)@ + line_bytes(text@),
{
    let mut text = text;
    push_line_end(&mut text);
    buf.extend_from_slice(text.as_slice());
}

/// Appends one directive: the bytes of `s` and the line end.
pub fn epl_line(buf: &mut Vec<u8>, s: &str)
    ensures
        final(buf)@ == old(buf)@ + line_bytes(vstd::utf8::encode_utf8(s@)),
{
    push_line(buf, s.as_bytes_vec());
}

/// Appends `data` to `dest` as it is.
pub fn append(dest: &mut Vec<u8>, data: &[u8])
    ensures
        final(dest)@ == old(dest)@ + data@,
{
    dest.extend_from_slice(data);
}

/// A fresh buffer that holds the head of a job.
pub fn header(canvas_width: u32, canvas_height: u32, gap: u32, darkness: u8, speed: u8) -> (buf:
    Vec<u8>)
    requires
        darkness <= 15,
        1 <= speed <= 6,
    ensures
        buf@ == header_bytes(
            canvas_width as nat,
            canvas_height as nat,
            gap as nat,
            darkness as nat,
            speed as nat,
        ),
{
    let mut buf: Vec<u8> = Vec::new();
    buf.push('N' as u8);
    push_line_end(&mut buf);
    push_line(&mut buf, short_directive_start('q', canvas_width as u64));
    let mut length: Vec<u8> = short_directive_start('Q', canvas_height as u64);
    push_field(&mut length, gap as u64);
    push_line(&mut buf, length);
    push_line(&mut buf, short_directive_start('D', darkness as u64));
    push_line(&mut buf, short_directive_start('S', speed as u64));
    buf
}

/// Appends a raster image at `(x, y)`. The packed rows follow the `GW` line
/// byte for byte, whatever they hold, and are not looked at.
pub fn gw_bytes(buf: &mut Vec<u8>, x: u32, y: u32, raster: &PackedRaster)
    ensures
        final(buf)@ == old(buf)@ + image_bytes(x as nat, y as nat, raster@),
{
    let mut text: Vec<u8> = directive_start('G', 'W', x as u64);
    push_field(&mut text, y as u64);
    push_field(&mut text, raster.bytes_per_row() as u64);
    push_field(&mut text, raster.height() as u64);
    push_line_end(&mut text);
    text.extend_from_slice(raster.rows().as_slice());
    push_line_end(&mut text);
    buf.extend_from_slice(text.as_slice());
}

/// The raster image directive for a bitmap at `(x, y)`: the bitmap is
/// packed for the given polarity and written out behind its `GW` line.
pub fn image_to_gw(x: u32, y: u32, img: &MonoBitmap, polarity: Polarity) -> (data: Vec<u8>)
    ensures
        data@ == image_bytes(x as nat, y as nat, pack_spec(img@, polarity.inverts())),
{
    let raster: PackedRaster = image_to_row_bytes(img, polarity);
    let mut data: Vec<u8> = Vec::new();
    gw_bytes(&mut data, x, y, &raster);
    proof {
        assert(Seq::<u8>::empty() + image_bytes(x as nat, y as nat, raster@) =~= image_bytes(
            x as nat,
            y as nat,
            raster@,
        ));
    }
    data
}

/// Appends the barcode directive for a complete EAN-13 code.
pub fn emit_barcode(
    buf: &mut Vec<u8>,
    x: u32,
    y: u32,
    rotation: u8,
    narrow: u32,
    wide: u32,
    height: u32,
    hri_visible: bool,
    code: &Ean13Code,
)
    ensures
        final(buf)@ == old(buf)@ + barcode_bytes(
            x as nat,
            y as nat,
            rotation as nat,
            narrow as nat,
            wide as nat,
            height as nat,
            hri_visible,
            ascii_bytes(code@),
        ),
{
    let digits: Vec<u8> = code.to_bytes();
    let mut text: Vec<u8> = short_directive_start('B', x as u64);
    push_field(&mut text, y as u64);
    push_field(&mut text, rotation as u64);
    push_comma(&mut text);
    push_symbology(&mut text);
    push_field(&mut text, narrow as u64);
    push_field(&mut text, wide as u64);
    push_field(&mut text, height as u64);
    push_comma(&mut text);
    push_byte(
        &mut text,
        if hri_visible {
            'B' as u8
        } else {
            'N' as u8
        },
    );
    push_comma(&mut text);
    push_byte(&mut text, '"' as u8);
    text.extend_from_slice(digits.as_slice());
    push_byte(&mut text, '"' as u8);
    push_line(buf, text);
}

/// Appends `E30`, the name of the EAN-13 symbology.
fn push_symbology(buf: &mut Vec<u8>)
    ensures
        final(buf)@ == old(buf)@ + seq!['E' as u8, '3' as u8, '0' as u8],
{
    buf.push('E' as u8);
    buf.push('3' as u8);
    buf.push('0' as u8);
    proof {
        assert(buf@ =~= old(buf)@ + seq!['E' as u8, '3' as u8, '0' as u8]);
    }
}

/// The barcode directive for the EAN-13 code that `code` stands for, not
/// rotated, with modules of two and three dots and the digits printed.
/// A string without any digit is refused.
pub fn epl_ean13(x: u32, y: u32, code: &str, height: u32) -> (out: Result<Vec<u8>, LabelError>)
    ensures
        out is Err <==> digits_of(code@).len() == 0,
        out matches Err(e) ==> e == LabelError::InvalidBarcodeDigits,
        out matches Ok(bytes) ==> bytes@ == barcode_bytes(
            x as nat,
            y as nat,
            0,
            2,
            3,
            height as nat,
            true,
            ascii_bytes(with_checksum(payload_of(code@))),
        ),
{
    match normalize_ean13(code) {
        Err(e) => Err(e),
        Ok(full) => {
            let mut buf: Vec<u8> = Vec::new();
            emit_barcode(&mut buf, x, y, 0, 2, 3, height, true, &full);
            proof {
                assert(Seq::<u8>::empty() + barcode_bytes(
                    x as nat,
                    y as nat,
                    0,
                    2,
                    3,
                    height as nat,
                    true,
                    ascii_bytes(full@),
                ) =~= barcode_bytes(
                    x as nat,
                    y as nat,
                    0,
                    2,
                    3,
                    height as nat,
                    true,
                    ascii_bytes(full@),
                ));
            }
            Ok(buf)
        },
    }
}

/// Appends a line directive.
pub fn emit_rule(buf: &mut Vec<u8>, x: u64, y: u64, thickness: u32, length: u32)
    ensures
        final(buf)@ == old(buf)@ + rule_bytes(x as nat, y as nat, thickness as nat, length as nat),
{
    let mut text: Vec<u8> = directive_start('L', 'O', x);
    push_field(&mut text, y);
    push_field(&mut text, thickness as u64);
    push_field(&mut text, length as u64);
    push_line(buf, text);
}

/// Appends a solid line of thickness one from `(start_x, y)`.
pub fn draw_solid_line(buf: &mut Vec<u8>, start_x: u32, y: u32, width: u32)
    ensures
        final(buf)@ == old(buf)@ + rule_bytes(start_x as nat, y as nat, 1, width as nat),
{
    emit_rule(buf, start_x as u64, y as u64, 1, width);
}

/// Appends a thin vertical line as single dots: one at `(x, start_y)`, then
/// one for each of the `height` rows from `start_y` down.
pub fn draw_vertical_line(buf: &mut Vec<u8>, x: u32, start_y: u32, height: u32)
    ensures
        final(buf)@ == old(buf)@ + rule_bytes(x as nat, start_y as nat, 1, 1) + dot_column_bytes(
            x as nat,
            start_y as nat,
            height as nat,
        ),
{
    emit_rule(buf, x as u64, start_y as u64, 1, 1);
    let mut i: u32 = 0;
    proof {
        assert(buf@ =~= old(buf)@ + rule_bytes(x as nat, start_y as nat, 1, 1)
            + dot_column_bytes(x as nat, start_y as nat, 0));
    }
    while i < height
        invariant
            i <= height,
            buf@ == old(buf)@ + rule_bytes(x as nat, start_y as nat, 1, 1) + dot_column_bytes(
                x as nat,
                start_y as nat,
                i as nat,
            ),
        decreases height - i,
    {
        emit_rule(buf, x as u64, start_y as u64 + i as u64, 1, 1);
        i += 1;
        proof {
            assert(buf@ =~= old(buf)@ + rule_bytes(x as nat, start_y as nat, 1, 1)
                + dot_column_bytes(x as nat, start_y as nat, i as nat));
        }
    }
}

/// Appends a dotted line from `(start_x, y)`: dashes of eight dots with
/// gaps of six, as long as a dash ends before `start_x + width`.
pub fn draw_dotted_line(buf: &mut Vec<u8>, start_x: u32, y: u32, width: u32)
    ensures
        final(buf)@ == old(buf)@ + dashes_bytes(
            start_x as nat,
            (start_x + width) as nat,
            y as nat,
        ),
{
    let end: u64 = start_x as u64 + width as u64;
    let mut x: u64 = start_x as u64;
    while x + 8 < end
        invariant
            start_x <= x,
            x <= end + 14,
            end == start_x + width,
            old(buf)@ + dashes_bytes(start_x as nat, end as nat, y as nat) == buf@ + dashes_bytes(
                x as nat,
                end as nat,
                y as nat,
            ),
        decreases end + 14 - x,
    {
        emit_rule(buf, x, y as u64, 1, 8);
        proof {
            assert(buf@ + dashes_bytes((x + 14) as nat, end as nat, y as nat) =~= old(buf)@
                + dashes_bytes(start_x as nat, end as nat, y as nat));
        }
        x += 14;
    }
    proof {
        assert(buf@ + Seq::<u8>::empty() =~= buf@);
    }
}

/// Appends the directive that draws `element`.
pub fn emit_element(buf: &mut Vec<u8>, element: &LabelElement)
    ensures
        final(buf)@ == old(buf)@ + element@.bytes(),
{
    match element {
        LabelElement::TextBlock { raster, x, y } => {
            gw_bytes(buf, *x, *y, raster);
        },
        LabelElement::Barcode { x, y, rotation, narrow, wide, height, hri_visible, digits } => {
            emit_barcode(buf, *x, *y, *rotation, *narrow, *wide, *height, *hri_visible, digits);
        },
        LabelElement::Rule { x, y, thickness, length } => {
            emit_rule(buf, *x as u64, *y as u64, *thickness, *length);
        },
    }
}

/// The whole job for a label: the head, then every element in the order
/// in which the document holds them, then the end.
pub fn emit_document(doc: &LabelDocument) -> (buf: Vec<u8>)
    ensures
        buf@ == document_bytes(doc@),
{
    let mut buf: Vec<u8> = header(
        doc.canvas_width(),
        doc.canvas_height(),
        doc.gap(),
        doc.darkness(),
        doc.speed(),
    );
    let elements: &Vec<LabelElement> = doc.elements();
    let ghost head = buf@;
    let n: usize = elements.len();
    let mut i: usize = 0;
    while i < n
        invariant
            n == elements@.len(),
            i <= n,
            crate::document::element_views(elements@) == doc@.elements,
            buf@ == head + elements_bytes(doc@.elements.take(i as int)),
        decreases n - i,
    {
        emit_element(&mut buf, &elements[i]);
        proof {
            let next = doc@.elements.take(i + 1);
            assert(next.drop_last() =~= doc@.elements.take(i as int));
            assert(next.last() == elements@[i as int]@);
            assert(buf@ =~= head + elements_bytes(next));
        }
        i += 1;
    }
    proof {
        assert(doc@.elements.take(n as int) =~= doc@.elements);
    }
    emit_end(&mut buf);
    buf
}

/// Appends the end of a job: print exactly one copy.
pub fn emit_end(buf: &mut Vec<u8>)
    ensures
        final(buf)@ == old(buf)@ + end_bytes(),
{
    let mut text: Vec<u8> = Vec::new();
    text.push('P' as u8);
    text.push('1' as u8);
    push_line(buf, text);
}

} // verus!
