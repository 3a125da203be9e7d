use crate::bitmap::{lemma_cell_index, lemma_index_cell, lemma_u32_product, Grid, MonoBitmap};
use vstd::prelude::*;

verus! {

/// A gray image of the image crate: eight bits to the pixel, 0 for black
/// and 255 for white. The image is in a public field, so that it can be
/// handed in and taken out; the library reads and fills it through the
/// functions below.
#[verifier::external_body]
pub struct GrayCanvas {
    pub image: image::GrayImage,
}

/// The gray values of an image: its rows from the top, each row from the
/// left.
pub uninterp spec fn gray_rows(canvas: GrayCanvas) -> Seq<Seq<u8>>;

/// `ImageBuffer::height` of the image crate: the number of rows.
#[verifier::external_body]
fn canvas_height(canvas: &GrayCanvas) -> (h: u32)
    ensures
        h == gray_rows(*canvas).len(),
{
    canvas.image.height()
}

/// `ImageBuffer::width` of the image crate: the number of pixels in each
/// row.
#[verifier::external_body]
fn canvas_width(canvas: &GrayCanvas) -> (w: u32)
    ensures
        forall|y: int|
            0 <= y < gray_rows(*canvas).len() ==> (#[trigger] gray_rows(*canvas)[y]).len() == w,
{
    canvas.image.width()
}

/// `ImageBuffer::get_pixel` of the image crate, for a position on the
/// image: the gray value there. The crate panics for any other position.
#[verifier::external_body]
fn canvas_at(canvas: &GrayCanvas, x: u32, y: u32) -> (v: u8)
    requires
        y < gray_rows(*canvas).len(),
        x < gray_rows(*canvas)[y as int].len(),
    ensures
        v == gray_rows(*canvas)[y as int][x as int],
{
    canvas.image.get_pixel(x, y).0[0]
}

/// `ImageBuffer::from_pixel` of the image crate: an image of the given
/// size with the same gray value everywhere. The crate panics where the
/// image is larger than a vector can be.
#[verifier::external_body]
fn filled_canvas(width: u32, height: u32, value: u8) -> (canvas: GrayCanvas)
    requires
        width * height <= isize::MAX,
    ensures
        gray_rows(canvas) == Seq::new(
            height as nat,
            |y: int| Seq::new(width as nat, |x: int| value),
        ),
{
    GrayCanvas { image: image::GrayImage::from_pixel(width, height, image::Luma([value])) }
}

/// `ImageBuffer::put_pixel` of the image crate, for a position on the
/// image: the gray value there is replaced and no other. The crate panics
/// for any other position.
#[verifier::external_body]
fn canvas_put(canvas: &mut GrayCanvas, x: u32, y: u32, value: u8)
    requires
        y < gray_rows(*old(canvas)).len(),
        x < gray_rows(*old(canvas))[y as int].len(),
    ensures
        gray_rows(*final(canvas)) == gray_rows(*old(canvas)).update(
            y as int,
            gray_rows(*old(canvas))[y as int].update(x as int, value),
        ),
{
    canvas.image.put_pixel(x, y, image::Luma([value]));
}

/// The width of an image given by its rows; nothing where it has no row.
pub open spec fn rows_width(rows: Seq<Seq<u8>>) -> nat {
    if rows.len() == 0 {
        0
    } else {
        rows[0].len()
    }
}

/// The bitmap of a gray image: a pixel darker than middle gray is black.
pub open spec fn grid_of_rows(rows: Seq<Seq<u8>>) -> Grid {
    Grid {
        width: rows_width(rows),
        height: rows.len(),
        bits: Seq::new(
            rows_width(rows) * rows.len(),
            |i: int| rows[i / (rows_width(rows) as int)][i % (rows_width(rows) as int)] < 128,
        ),
    }
}

/// The gray image of a bitmap: black is 0, white is 255.
pub open spec fn rows_of_grid(g: Grid) -> Seq<Seq<u8>> {
    Seq::new(
        g.height,
        |y: int|
            Seq::new(
                g.width,
                |x: int|
                    if g.bits[y * g.width + x] {
                        0u8
                    } else {
                        255u8
                    },
            ),
    )
}

/// The gray image of a bitmap stands for that bitmap again.
pub proof fn lemma_grid_of_rows_of_grid(g: Grid)
    requires
        g.wf(),
    ensures
        grid_of_rows(rows_of_grid(g)) == g,
{
    let rows = rows_of_grid(g);
    let back = grid_of_rows(rows);
    assert(rows_width(rows) == g.width);
    assert forall|i: int| 0 <= i < g.bits.len() implies back.bits[i] == g.bits[i] by {
        lemma_index_cell(i, g.width as int, g.height as int);
    }
    assert(back.bits =~= g.bits);
}

/// The bitmap of a gray image: a pixel darker than middle gray is black,
/// every other is white. An image without pixels has no bitmap, nor has
/// one with more pixels than the machine can index.
pub fn bitmap_from_gray(canvas: &GrayCanvas) -> (out: Option<MonoBitmap>)
    ensures
        out is Some <==> {
            &&& gray_rows(*canvas).len() > 0
            &&& rows_width(gray_rows(*canvas)) > 0
            &&& rows_width(gray_rows(*canvas)) * gray_rows(*canvas).len() <= usize::MAX
        },
        out matches Some(bitmap) ==> bitmap@ == grid_of_rows(gray_rows(*canvas)),
{
    let h: u32 = canvas_height(canvas);
    let w: u32 = canvas_width(canvas);
    if h == 0 || w == 0 {
        return None;
    }
    proof {
        lemma_u32_product(w, h);
    }
    if (w as u64) * (h as u64) > usize::MAX as u64 {
        return None;
    }
    let ghost rows = gray_rows(*canvas);
    let ghost g = grid_of_rows(rows);
    let mut bits: Vec<bool> = Vec::new();
    let mut y: u32 = 0;
    while y < h
        invariant
            rows == gray_rows(*canvas),
            g == grid_of_rows(rows),
            h == rows.len(),
            w > 0,
            w == rows_width(rows),
            forall|r: int| 0 <= r < rows.len() ==> (#[trigger] rows[r]).len() == w,
            y <= h,
            bits@.len() == y * w,
            forall|i: int| 0 <= i < bits@.len() ==> bits@[i] == g.bits[i],
        decreases h - y,
    {
        let mut x: u32 = 0;
        while x < w
            invariant
                rows == gray_rows(*canvas),
                g == grid_of_rows(rows),
                h == rows.len(),
                w == rows_width(rows),
                forall|r: int| 0 <= r < rows.len() ==> (#[trigger] rows[r]).len() == w,
                y < h,
                x <= w,
                bits@.len() == y * w + x,
                forall|i: int| 0 <= i < bits@.len() ==> bits@[i] == g.bits[i],
            decreases w - x,
        {
            let v: u8 = canvas_at(canvas, x, y);
            proof {
                lemma_cell_index(x as int, y as int, w as int, h as int);
            }
            bits.push(v < 128);
            x += 1;
        }
        assert(y * w + w == (y + 1) * w) by (nonlinear_arith);
        y += 1;
    }
    proof {
        assert(h * w == w * h) by (nonlinear_arith);
        assert(bits@ =~= g.bits);
    }
    Some(MonoBitmap::assemble(w, h, bits))
}

/// The gray image of a bitmap: black pixels are 0, white pixels 255.
/// There is none for a bitmap with more pixels than a vector can hold.
pub fn gray_from_bitmap(bitmap: &MonoBitmap) -> (out: Option<GrayCanvas>)
    ensures
        out is Some <==> bitmap@.width * bitmap@.height <= isize::MAX,
        out matches Some(canvas) ==> gray_rows(canvas) == rows_of_grid(bitmap@),
{
    let w: u32 = bitmap.width();
    let h: u32 = bitmap.height();
    proof {
        lemma_u32_product(w, h);
    }
    if (w as u64) * (h as u64) > isize::MAX as u64 {
        return None;
    }
    let ghost g = bitmap@;
    let mut canvas: GrayCanvas = filled_canvas(w, h, 255);
    let mut y: u32 = 0;
    while y < h
        invariant
            g == bitmap@,
            w == g.width,
            h == g.height,
            y <= h,
            gray_rows(canvas).len() == h,
            forall|r: int| 0 <= r < h ==> (#[trigger] gray_rows(canvas)[r]).len() == w,
            forall|r: int, c: int|
                0 <= r < h && 0 <= c < w ==> #[trigger] gray_rows(canvas)[r][c] == (if r < y
                    && g.black(c, r) {
                    0u8
                } else {
                    255u8
                }),
        decreases h - y,
    {
        let mut x: u32 = 0;
        while x < w
            invariant
                g == bitmap@,
                w == g.width,
                h == g.height,
                y < h,
                x <= w,
                gray_rows(canvas).len() == h,
                forall|r: int| 0 <= r < h ==> (#[trigger] gray_rows(canvas)[r]).len() == w,
                forall|r: int, c: int|
                    0 <= r < h && 0 <= c < w ==> #[trigger] gray_rows(canvas)[r][c] == (if (r < y
                        || (r == y && c < x)) && g.black(c, r) {
                        0u8
                    } else {
                        255u8
                    }),
            decreases w - x,
        {
            if bitmap.get(x, y) {
                canvas_put(&mut canvas, x, y, 0);
            }
            x += 1;
        }
        y += 1;
    }
    proof {
        let rows = gray_rows(canvas);
        let want = rows_of_grid(g);
        assert forall|r: int| 0 <= r < h implies rows[r] == want[r] by {
            assert(rows[r] =~= want[r]);
        }
        assert(rows =~= want);
    }
    Some(canvas)
}

} // verus!
