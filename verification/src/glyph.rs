use crate::bitmap::{
    lemma_cell_index, lemma_count_true_monotone, lemma_index_cell, lemma_u32_product, Grid,
    MonoBitmap,
};
use crate::config::RenderConfig;
use vstd::prelude::*;

verus! {

/// One glyph as the font rasterizer laid it out on the line: the top left
/// corner of its bounding box, measured from the left end of the line and
/// from the top of the line, and the coverage of every pixel of the box,
/// row by row, from 0 for untouched to 255 for fully covered.
pub struct GlyphCoverage {
    pub left: i32,
    pub top: i32,
    pub width: u32,
    pub height: u32,
    pub coverage: Vec<u8>,
}

/// The glyphs of one line of text in display order, and the height that
/// the font asks for at the size it was laid out at: ascent plus descent,
/// rounded up.
pub struct LineGlyphs {
    pub glyphs: Vec<GlyphCoverage>,
    pub line_extent: u32,
}

impl GlyphCoverage {
    /// Whether the glyph covers the pixel at column `gx` of row `gy` of its
    /// own box by more than `threshold`. A pixel is black or white: there
    /// is nothing in between.
    pub open spec fn covers(self, gx: int, gy: int, threshold: u8) -> bool {
        &&& 0 <= gx < self.width
        &&& 0 <= gy < self.height
        &&& gy * self.width + gx < self.coverage@.len()
        &&& self.coverage@[gy * self.width + gx] > threshold
    }

    /// Whether the glyph, moved `shift` pixels to the right, blackens the
    /// pixel at `(x, y)` of the line.
    pub open spec fn inks(self, threshold: u8, shift: int, x: int, y: int) -> bool {
        self.covers(x - shift - self.left, y - self.top, threshold)
    }

    /// Whether the glyph blackens `(x, y)` with one of the pixels of its
    /// box that come before column `col` of row `row`, row by row.
    pub open spec fn inks_before(
        self,
        threshold: u8,
        shift: int,
        x: int,
        y: int,
        row: int,
        col: int,
    ) -> bool {
        &&& self.inks(threshold, shift, x, y)
        &&& (y - self.top < row || (y - self.top == row && x - shift - self.left < col))
    }
}

/// Whether one of the glyphs, all moved `shift` pixels to the right,
/// blackens the pixel at `(x, y)`.
pub open spec fn line_inks(
    glyphs: Seq<GlyphCoverage>,
    threshold: u8,
    shift: int,
    x: int,
    y: int,
) -> bool {
    exists|k: int| 0 <= k < glyphs.len() && (#[trigger] glyphs[k]).inks(threshold, shift, x, y)
}

/// Whether one of `passes` draw passes blackens the pixel at `(x, y)`: the
/// first pass starts at `start`, each further one a pixel further right.
pub open spec fn passes_ink(
    glyphs: Seq<GlyphCoverage>,
    threshold: u8,
    start: int,
    passes: nat,
    x: int,
    y: int,
) -> bool {
    exists|p: int| 0 <= p < passes && #[trigger] line_inks(glyphs, threshold, start + p, x, y)
}

/// The bitmap of a line: a white canvas on which every pixel that a pass
/// blackens is black.
pub open spec fn rendered(
    glyphs: Seq<GlyphCoverage>,
    threshold: u8,
    width: nat,
    height: nat,
    start: int,
    passes: nat,
) -> Grid {
    Grid {
        width,
        height,
        bits: Seq::new(
            width * height,
            |i: int|
                passes_ink(
                    glyphs,
                    threshold,
                    start,
                    passes,
                    i % (width as int),
                    i / (width as int),
                ),
        ),
    }
}

/// The width of the text: the right edge of the last glyph, and nothing
/// for a line without glyphs.
pub open spec fn measured_width(glyphs: Seq<GlyphCoverage>) -> nat {
    if glyphs.len() == 0 {
        0
    } else {
        let edge: int = glyphs.last().left + glyphs.last().width;
        if edge < 0 {
            0
        } else if edge > u32::MAX {
            u32::MAX as nat
        } else {
            edge as nat
        }
    }
}

/// The height of a line: what the font asks for, but no less than the
/// configured minimum.
pub open spec fn line_height(line_extent: u32, config: RenderConfig) -> nat {
    if line_extent >= config.min_line_height {
        line_extent as nat
    } else {
        config.min_line_height as nat
    }
}

/// The number of draw passes for product text.
pub open spec fn passes_for(bold: bool, config: RenderConfig) -> nat {
    if bold {
        1 + config.bold_passes as nat
    } else {
        1
    }
}

/// The width of a tight bitmap: the text and the padding on both sides,
/// at least two pixels, and no more than the maximum where one is given.
pub open spec fn tight_width(
    glyphs: Seq<GlyphCoverage>,
    padding: u32,
    max_width: Option<u32>,
) -> nat {
    let natural: nat = measured_width(glyphs) + 2 * (padding as nat);
    let floored: nat = if natural < 2 {
        2
    } else {
        natural
    };
    match max_width {
        Some(m) => if floored > m {
            m as nat
        } else {
            floored
        },
        None => floored,
    }
}

/// Where the first pass starts so that the text ends `padding` pixels left
/// of the right edge of a bitmap of `width` pixels; the left edge where the
/// text is too long for that.
pub open spec fn right_aligned_start(glyphs: Seq<GlyphCoverage>, width: u32, padding: u32) -> nat {
    if width - padding - measured_width(glyphs) < 0 {
        0
    } else {
        (width - padding - measured_width(glyphs)) as nat
    }
}

/// The tight bitmap of a line.
pub open spec fn tight_rendering(
    line: LineGlyphs,
    padding: u32,
    passes: nat,
    max_width: Option<u32>,
    config: RenderConfig,
) -> Grid {
    rendered(
        line.glyphs@,
        config.coverage_threshold,
        tight_width(line.glyphs@, padding, max_width),
        line_height(line.line_extent, config),
        padding as int,
        passes,
    )
}

/// The bitmap of a line set against the right edge of `width` pixels.
pub open spec fn right_rendering(
    line: LineGlyphs,
    width: u32,
    padding: u32,
    passes: nat,
    config: RenderConfig,
) -> Grid {
    rendered(
        line.glyphs@,
        config.coverage_threshold,
        width as nat,
        line_height(line.line_extent, config),
        right_aligned_start(line.glyphs@, width, padding) as int,
        passes,
    )
}

/// More passes never make a pixel white again: a rendering with more
/// passes has at least as many black pixels as one with fewer, all else
/// being the same.
pub proof fn lemma_more_passes_never_lighter(
    glyphs: Seq<GlyphCoverage>,
    threshold: u8,
    width: nat,
    height: nat,
    start: int,
    fewer: nat,
    more: nat,
)
    requires
        fewer <= more,
    ensures
        rendered(glyphs, threshold, width, height, start, fewer).black_count() <= rendered(
            glyphs,
            threshold,
            width,
            height,
            start,
            more,
        ).black_count(),
{
    let a = rendered(glyphs, threshold, width, height, start, fewer).bits;
    let b = rendered(glyphs, threshold, width, height, start, more).bits;
    assert forall|i: int| 0 <= i < a.len() && a[i] implies b[i] by {
        let x = i % (width as int);
        let y = i / (width as int);
        let p = choose|p: int|
            0 <= p < fewer && #[trigger] line_inks(glyphs, threshold, start + p, x, y);
        assert(line_inks(glyphs, threshold, start + p, x, y));
    }
    lemma_count_true_monotone(a, b);
}

/// The bold rendering of a line has at least as many black pixels as the
/// regular one, whatever the text, the font and the size were: both are
/// drawn from the same glyphs on a canvas of the same size.
pub proof fn lemma_bold_never_lighter(
    line: LineGlyphs,
    padding: u32,
    max_width: Option<u32>,
    config: RenderConfig,
)
    ensures
        tight_rendering(
            line,
            padding,
            passes_for(false, config),
            max_width,
            config,
        ).black_count() <= tight_rendering(
            line,
            padding,
            passes_for(true, config),
            max_width,
            config,
        ).black_count(),
{
    lemma_more_passes_never_lighter(
        line.glyphs@,
        config.coverage_threshold,
        tight_width(line.glyphs@, padding, max_width),
        line_height(line.line_extent, config),
        padding as int,
        passes_for(false, config),
        passes_for(true, config),
    );
}

/// The same for a line set against the right edge.
pub proof fn lemma_bold_right_never_lighter(
    line: LineGlyphs,
    width: u32,
    padding: u32,
    config: RenderConfig,
)
    ensures
        right_rendering(line, width, padding, passes_for(false, config), config).black_count()
            <= right_rendering(
            line,
            width,
            padding,
            passes_for(true, config),
            config,
        ).black_count(),
{
    lemma_more_passes_never_lighter(
        line.glyphs@,
        config.coverage_threshold,
        width as nat,
        line_height(line.line_extent, config),
        right_aligned_start(line.glyphs@, width, padding) as int,
        passes_for(false, config),
        passes_for(true, config),
    );
}

/// The width of the text in pixels.
pub fn text_width(glyphs: &Vec<GlyphCoverage>) -> (w: u32)
    ensures
        w == measured_width(glyphs@),
{
    let n: usize = glyphs.len();
    if n == 0 {
        return 0;
    }
    let last: &GlyphCoverage = &glyphs[n - 1];
    let edge: i64 = last.left as i64 + last.width as i64;
    if edge < 0 {
        0
    } else if edge > u32::MAX as i64 {
        u32::MAX
    } else {
        edge as u32
    }
}

/// Blackens every pixel of `canvas` that the glyph, moved `shift` pixels
/// to the right, covers by more than `threshold`. What falls off the canvas
/// is dropped.
fn stamp_glyph(canvas: &mut MonoBitmap, glyph: &GlyphCoverage, threshold: u8, shift: i64)
    requires
        -0x2_0000_0000 <= shift <= 0x2_0000_0000,
    ensures
        final(canvas)@.width == old(canvas)@.width,
        final(canvas)@.height == old(canvas)@.height,
        final(canvas)@.bits.len() == old(canvas)@.bits.len(),
        forall|i: int|
            0 <= i < old(canvas)@.bits.len() ==> #[trigger] final(canvas)@.bits[i] == (old(
                canvas,
            )@.bits[i] || glyph.inks(
                threshold,
                shift as int,
                i % (old(canvas)@.width as int),
                i / (old(canvas)@.width as int),
            )),
{
    let ghost before: Grid = canvas@;
    let ghost w: int = before.width as int;
    proof {
        use_type_invariant(&*canvas);
    }
    let total: usize = glyph.coverage.len();
    let canvas_width: u32 = canvas.width();
    let canvas_height: u32 = canvas.height();
    let mut row: u32 = 0;
    while row < glyph.height
        invariant
            before == old(canvas)@,
            before.wf(),
            before.width == canvas_width,
            before.height == canvas_height,
            w == before.width,
            -0x2_0000_0000 <= shift <= 0x2_0000_0000,
            total == glyph.coverage@.len(),
            row <= glyph.height,
            canvas@.width == before.width,
            canvas@.height == before.height,
            canvas@.bits.len() == before.bits.len(),
            forall|i: int|
                0 <= i < before.bits.len() ==> #[trigger] canvas@.bits[i] == (before.bits[i]
                    || glyph.inks_before(threshold, shift as int, i % w, i / w, row as int, 0)),
        decreases glyph.height - row,
    {
        let mut col: u32 = 0;
        while col < glyph.width
            invariant
                before == old(canvas)@,
                before.wf(),
                before.width == canvas_width,
                before.height == canvas_height,
                w == before.width,
                -0x2_0000_0000 <= shift <= 0x2_0000_0000,
                total == glyph.coverage@.len(),
                row < glyph.height,
                col <= glyph.width,
                canvas@.width == before.width,
                canvas@.height == before.height,
                canvas@.bits.len() == before.bits.len(),
                forall|i: int|
                    0 <= i < before.bits.len() ==> #[trigger] canvas@.bits[i] == (before.bits[i]
                        || glyph.inks_before(
                        threshold,
                        shift as int,
                        i % w,
                        i / w,
                        row as int,
                        col as int,
                    )),
            decreases glyph.width - col,
        {
            proof {
                lemma_u32_product(row, glyph.width);
            }
            let index: u64 = (row as u64) * (glyph.width as u64) + (col as u64);
            let px: i64 = col as i64 + glyph.left as i64 + shift;
            let py: i64 = row as i64 + glyph.top as i64;
            let ghost mid: Grid = canvas@;
            let mut hit: bool = false;
            if index < total as u64 {
                if glyph.coverage[index as usize] > threshold {
                    hit = true;
                }
            }
            assert(hit == glyph.covers(col as int, row as int, threshold));
            if hit && 0 <= px && px <= u32::MAX as i64 && 0 <= py && py <= u32::MAX as i64 {
                canvas.set_black(px as u32, py as u32);
            }
            proof {
                if mid.holds(px as int, py as int) {
                    lemma_cell_index(px as int, py as int, w, before.height as int);
                }
                assert(canvas@.bits.len() == before.bits.len());
                assert forall|i: int| 0 <= i < before.bits.len() implies #[trigger] canvas@.bits[i]
                    == (before.bits[i] || glyph.inks_before(
                    threshold,
                    shift as int,
                    i % w,
                    i / w,
                    row as int,
                    col + 1,
                )) by {
                    lemma_index_cell(i, w, before.height as int);
                    let x = i % w;
                    let y = i / w;
                    assert(mid.bits[i] == (before.bits[i] || glyph.inks_before(
                        threshold,
                        shift as int,
                        x,
                        y,
                        row as int,
                        col as int,
                    )));
                    assert(glyph.inks_before(threshold, shift as int, x, y, row as int, col + 1)
                        == (glyph.inks_before(threshold, shift as int, x, y, row as int, col as int)
                        || (hit && x == px && y == py)));
                    if hit && mid.holds(px as int, py as int) {
                        assert(canvas@.bits[i] == (mid.bits[i] || i == py * w + px));
                        assert((i == py * w + px) == (x == px && y == py));
                    }
                }
            }
            col += 1;
        }
        row += 1;
    }
}

/// Blackens every pixel of `canvas` that one of the glyphs, all moved
/// `shift` pixels to the right, covers by more than `threshold`.
fn stamp_line(canvas: &mut MonoBitmap, glyphs: &Vec<GlyphCoverage>, threshold: u8, shift: i64)
    requires
        -0x2_0000_0000 <= shift <= 0x2_0000_0000,
    ensures
        final(canvas)@.width == old(canvas)@.width,
        final(canvas)@.height == old(canvas)@.height,
        final(canvas)@.bits.len() == old(canvas)@.bits.len(),
        forall|i: int|
            0 <= i < old(canvas)@.bits.len() ==> #[trigger] final(canvas)@.bits[i] == (old(
                canvas,
            )@.bits[i] || line_inks(
                glyphs@,
                threshold,
                shift as int,
                i % (old(canvas)@.width as int),
                i / (old(canvas)@.width as int),
            )),
{
    let ghost before: Grid = canvas@;
    let ghost w: int = before.width as int;
    let n: usize = glyphs.len();
    let mut k: usize = 0;
    while k < n
        invariant
            before == old(canvas)@,
            w == before.width,
            -0x2_0000_0000 <= shift <= 0x2_0000_0000,
            n == glyphs@.len(),
            k <= n,
            canvas@.width == before.width,
            canvas@.height == before.height,
            canvas@.bits.len() == before.bits.len(),
            forall|i: int|
                0 <= i < before.bits.len() ==> #[trigger] canvas@.bits[i] == (before.bits[i]
                    || line_inks(glyphs@.take(k as int), threshold, shift as int, i % w, i / w)),
        decreases n - k,
    {
        let ghost mid: Grid = canvas@;
        stamp_glyph(canvas, &glyphs[k], threshold, shift);
        proof {
            let done = glyphs@.take(k as int);
            let next = glyphs@.take(k + 1);
            assert forall|i: int| 0 <= i < before.bits.len() implies #[trigger] canvas@.bits[i]
                == (before.bits[i] || line_inks(next, threshold, shift as int, i % w, i / w)) by {
                let x = i % w;
                let y = i / w;
                assert(canvas@.bits[i] == (mid.bits[i] || glyphs@[k as int].inks(
                    threshold,
                    shift as int,
                    x,
                    y,
                )));
                if line_inks(done, threshold, shift as int, x, y) {
                    let j = choose|j: int|
                        0 <= j < done.len() && (#[trigger] done[j]).inks(
                            threshold,
                            shift as int,
                            x,
                            y,
                        );
                    assert(next[j] == done[j]);
                }
                if glyphs@[k as int].inks(threshold, shift as int, x, y) {
                    assert(next[k as int] == glyphs@[k as int]);
                }
                if line_inks(next, threshold, shift as int, x, y) {
                    let j = choose|j: int|
                        0 <= j < next.len() && (#[trigger] next[j]).inks(
                            threshold,
                            shift as int,
                            x,
                            y,
                        );
                    if j < k {
                        assert(done[j] == next[j]);
                    }
                }
            }
        }
        k += 1;
    }
    proof {
        assert(glyphs@.take(n as int) =~= glyphs@);
    }
}

/// Draws a line on a white canvas of the given size: `passes` passes, the
/// first from `start`, each further one a pixel further right. There is no
/// bitmap with a side of zero, nor one too large for the machine.
pub fn render_line(
    glyphs: &Vec<GlyphCoverage>,
    threshold: u8,
    width: u32,
    height: u32,
    start: u32,
    passes: u32,
) -> (out: Option<MonoBitmap>)
    ensures
        out is Some <==> width > 0 && height > 0 && width * height <= usize::MAX,
        out matches Some(bitmap) ==> bitmap@ == rendered(
            glyphs@,
            threshold,
            width as nat,
            height as nat,
            start as int,
            passes as nat,
        ),
{
    let mut canvas: MonoBitmap = match MonoBitmap::new(width, height) {
        Some(c) => c,
        None => {
            return None;
        },
    };
    let ghost w: int = width as int;
    let ghost total: int = width * height;
    let mut p: u32 = 0;
    while p < passes
        invariant
            w == width,
            total == width * height,
            width > 0,
            p <= passes,
            canvas@.width == width,
            canvas@.height == height,
            canvas@.bits.len() == total,
            forall|i: int|
                0 <= i < total ==> #[trigger] canvas@.bits[i] == passes_ink(
                    glyphs@,
                    threshold,
                    start as int,
                    p as nat,
                    i % w,
                    i / w,
                ),
        decreases passes - p,
    {
        let ghost mid: Grid = canvas@;
        stamp_line(&mut canvas, glyphs, threshold, start as i64 + p as i64);
        proof {
            assert forall|i: int| 0 <= i < total implies #[trigger] canvas@.bits[i] == passes_ink(
                glyphs@,
                threshold,
                start as int,
                (p + 1) as nat,
                i % w,
                i / w,
            ) by {
                let x = i % w;
                let y = i / w;
                assert(canvas@.bits[i] == (mid.bits[i] || line_inks(
                    glyphs@,
                    threshold,
                    start + p,
                    x,
                    y,
                )));
                if passes_ink(glyphs@, threshold, start as int, (p + 1) as nat, x, y) {
                    let q = choose|q: int|
                        0 <= q < p + 1 && #[trigger] line_inks(
                            glyphs@,
                            threshold,
                            start + q,
                            x,
                            y,
                        );
                    if q < p {
                        assert(passes_ink(glyphs@, threshold, start as int, p as nat, x, y));
                    }
                }
                if mid.bits[i] {
                    let q = choose|q: int|
                        0 <= q < p && #[trigger] line_inks(glyphs@, threshold, start + q, x, y);
                    assert(line_inks(glyphs@, threshold, start + q, x, y));
                }
            }
        }
        p += 1;
    }
    proof {
        assert(canvas@.bits =~= rendered(
            glyphs@,
            threshold,
            width as nat,
            height as nat,
            start as int,
            passes as nat,
        ).bits);
    }
    Some(canvas)
}

/// The height of the bitmap of a line.
pub fn height_of_line(line_extent: u32, config: &RenderConfig) -> (h: u32)
    ensures
        h == line_height(line_extent, *config),
{
    if line_extent >= config.min_line_height {
        line_extent
    } else {
        config.min_line_height
    }
}

/// The number of draw passes for product text.
pub fn pass_count(bold: bool, config: &RenderConfig) -> (n: u32)
    ensures
        n == passes_for(bold, *config),
{
    if bold {
        1 + config.bold_passes as u32
    } else {
        1
    }
}

/// Draws a line into a bitmap that is just wide enough for the text and
/// `pad_lr` pixels on either side, and no wider than `max_width` where
/// one is given. The bitmap is as high as the font asks for at that size,
/// but no lower than the configured minimum. Bold text is drawn again one
/// pixel further right for each bold pass.
///
/// There is no bitmap where a side comes out as zero or the width does not
/// fit in 32 bits, nor one too large for the machine.
pub fn render_arabic_line_tight_1bit(
    line: &LineGlyphs,
    pad_lr: u32,
    bold: bool,
    max_width: Option<u32>,
    config: &RenderConfig,
) -> (out: Option<MonoBitmap>)
    ensures
        out is Some <==> {
            &&& 0 < tight_width(line.glyphs@, pad_lr, max_width) <= u32::MAX
            &&& 0 < line_height(line.line_extent, *config)
            &&& tight_width(line.glyphs@, pad_lr, max_width) * line_height(
                line.line_extent,
                *config,
            ) <= usize::MAX
        },
        out matches Some(bitmap) ==> bitmap@ == tight_rendering(
            *line,
            pad_lr,
            passes_for(bold, *config),
            max_width,
            *config,
        ),
{
    let natural: u64 = text_width(&line.glyphs) as u64 + 2 * (pad_lr as u64);
    let floored: u64 = if natural < 2 {
        2
    } else {
        natural
    };
    let width: u64 = match max_width {
        Some(m) => if floored > m as u64 {
            m as u64
        } else {
            floored
        },
        None => floored,
    };
    if width > u32::MAX as u64 {
        return None;
    }
    render_line(
        &line.glyphs,
        config.coverage_threshold,
        width as u32,
        height_of_line(line.line_extent, config),
        pad_lr,
        pass_count(bold, config),
    )
}

/// The number of draw passes for a title: one and the title's bold passes.
pub open spec fn title_passes(config: RenderConfig) -> nat {
    1 + config.title_bold_passes as nat
}

/// Draws a title into a tight bitmap, as [`render_arabic_line_tight_1bit`]
/// draws a line, with the draw passes of a title.
pub fn render_title_tight_1bit(line: &LineGlyphs, pad_lr: u32, config: &RenderConfig) -> (out:
    Option<MonoBitmap>)
    ensures
        out is Some <==> {
            &&& 0 < tight_width(line.glyphs@, pad_lr, None) <= u32::MAX
            &&& 0 < line_height(line.line_extent, *config)
            &&& tight_width(line.glyphs@, pad_lr, None) * line_height(line.line_extent, *config)
                <= usize::MAX
        },
        out matches Some(bitmap) ==> bitmap@ == tight_rendering(
            *line,
            pad_lr,
            title_passes(*config),
            None,
            *config,
        ),
{
    let natural: u64 = text_width(&line.glyphs) as u64 + 2 * (pad_lr as u64);
    let width: u64 = if natural < 2 {
        2
    } else {
        natural
    };
    if width > u32::MAX as u64 {
        return None;
    }
    render_line(
        &line.glyphs,
        config.coverage_threshold,
        width as u32,
        height_of_line(line.line_extent, config),
        pad_lr,
        1 + config.title_bold_passes as u32,
    )
}

/// Where the first pass starts for a line set against the right edge.
pub fn start_for_right_edge(glyphs: &Vec<GlyphCoverage>, width_px: u32, pad_right: u32) -> (start:
    u32)
    ensures
        start == right_aligned_start(glyphs@, width_px, pad_right),
{
    let text_w: u64 = text_width(glyphs) as u64;
    let taken: u64 = pad_right as u64 + text_w;
    if taken > width_px as u64 {
        0
    } else {
        (width_px as u64 - taken) as u32
    }
}

/// Draws a line into a bitmap of `width_px` pixels so that the text ends
/// `pad_right` pixels left of the right edge. A text too long for that
/// starts at the left edge and is cut off on the right.
pub fn render_arabic_line_1bit_right(
    line: &LineGlyphs,
    width_px: u32,
    pad_right: u32,
    config: &RenderConfig,
) -> (out: Option<MonoBitmap>)
    ensures
        out is Some <==> width_px > 0 && line_height(line.line_extent, *config) > 0 && width_px
            * line_height(line.line_extent, *config) <= usize::MAX,
        out matches Some(bitmap) ==> bitmap@ == right_rendering(
            *line,
            width_px,
            pad_right,
            passes_for(false, *config),
            *config,
        ),
{
    render_line(
        &line.glyphs,
        config.coverage_threshold,
        width_px,
        height_of_line(line.line_extent, config),
        start_for_right_edge(&line.glyphs, width_px, pad_right),
        pass_count(false, config),
    )
}

/// The same as [`render_arabic_line_1bit_right`], in bold: the line is
/// drawn again one pixel further right for each bold pass. No pixel is
/// ever gray.
pub fn render_arabic_line_bold_right(
    line: &LineGlyphs,
    width_px: u32,
    pad_right: u32,
    config: &RenderConfig,
) -> (out: Option<MonoBitmap>)
    ensures
        out is Some <==> width_px > 0 && line_height(line.line_extent, *config) > 0 && width_px
            * line_height(line.line_extent, *config) <= usize::MAX,
        out matches Some(bitmap) ==> bitmap@ == right_rendering(
            *line,
            width_px,
            pad_right,
            passes_for(true, *config),
            *config,
        ),
{
    render_line(
        &line.glyphs,
        config.coverage_threshold,
        width_px,
        height_of_line(line.line_extent, config),
        start_for_right_edge(&line.glyphs, width_px, pad_right),
        pass_count(true, config),
    )
}

} // verus!
