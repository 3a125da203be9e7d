use vstd::arithmetic::div_mod::lemma_fundamental_div_mod_converse;
use vstd::prelude::*;

verus! {

/// The mathematical model of a monochrome bitmap: a row-major grid with one
/// truth value per pixel, `true` for black.
pub struct Grid {
    pub width: nat,
    pub height: nat,
    pub bits: Seq<bool>,
}

impl Grid {
    /// Both dimensions are positive and there is one bit per pixel.
    pub open spec fn wf(self) -> bool {
        &&& self.width > 0
        &&& self.height > 0
        &&& self.bits.len() == self.width * self.height
    }

    /// Whether `(x, y)` lies on the grid.
    pub open spec fn holds(self, x: int, y: int) -> bool {
        0 <= x < self.width && 0 <= y < self.height
    }

    /// Whether the pixel at column `x` of row `y` is black. Every position
    /// off the grid is white.
    pub open spec fn black(self, x: int, y: int) -> bool {
        self.holds(x, y) && self.bits[y * self.width + x]
    }

    /// The all-white grid of the given size.
    pub open spec fn blank(width: nat, height: nat) -> Grid {
        Grid { width, height, bits: Seq::new(width * height, |i: int| false) }
    }

    /// The grid with the pixel at `(x, y)` made black; unchanged where
    /// `(x, y)` lies off the grid.
    pub open spec fn with_black(self, x: int, y: int) -> Grid {
        if self.holds(x, y) {
            Grid { bits: self.bits.update(y * self.width + x, true), ..self }
        } else {
            self
        }
    }

    /// The grid turned a quarter clockwise: the left column becomes the top
    /// row, read from the bottom up.
    pub open spec fn rotated(self) -> Grid {
        Grid {
            width: self.height,
            height: self.width,
            bits: Seq::new(
                self.width * self.height,
                |i: int|
                    self.bits[(self.height - 1 - i % (self.height as int)) * self.width + i / (
                    self.height as int)],
            ),
        }
    }

    /// The number of black pixels.
    pub open spec fn black_count(self) -> nat {
        count_true(self.bits)
    }
}

/// How many entries of `s` are `true`.
pub open spec fn count_true(s: Seq<bool>) -> nat
    decreases s.len(),
{
    if s.len() == 0 {
        0
    } else {
        count_true(s.drop_last()) + if s.last() {
            1nat
        } else {
            0nat
        }
    }
}

/// Where every `true` of `a` is also `true` in `b`, `b` counts at least as
/// many.
pub proof fn lemma_count_true_monotone(a: Seq<bool>, b: Seq<bool>)
    requires
        a.len() == b.len(),
        forall|i: int| 0 <= i < a.len() && a[i] ==> b[i],
    ensures
        count_true(a) <= count_true(b),
    decreases a.len(),
{
    if a.len() > 0 {
        lemma_count_true_monotone(a.drop_last(), b.drop_last());
    }
}

/// A position on a `width` by `height` grid has an index below
/// `width * height`.
pub(crate) proof fn lemma_cell_index(x: int, y: int, width: int, height: int)
    requires
        0 <= x < width,
        0 <= y < height,
    ensures
        0 <= y * width + x < width * height,
        y * width <= y * width + x,
        (y * width + x) / width == y,
        (y * width + x) % width == x,
{
    assert(0 <= y * width && y * width + width <= width * height) by (nonlinear_arith)
        requires
            0 <= y < height,
            0 < width,
    ;
    lemma_fundamental_div_mod_converse(y * width + x, width, y, x);
}

/// An index below `width * height` names a position on the grid.
pub(crate) proof fn lemma_index_cell(i: int, width: int, height: int)
    requires
        0 <= i < width * height,
        0 < width,
    ensures
        0 <= i % width < width,
        0 <= i / width < height,
        (i / width) * width + i % width == i,
{
    assert(0 <= i % width < width && 0 <= i / width < height && (i / width) * width + i % width
        == i) by (nonlinear_arith)
        requires
            0 <= i < width * height,
            0 < width,
    ;
}

/// The product of two 32-bit numbers fits in 64 bits.
pub(crate) proof fn lemma_u32_product(a: u32, b: u32)
    ensures
        0 <= a * b <= 0xFFFF_FFFE_0000_0001,
{
    assert(0 <= a * b <= 0xFFFF_FFFE_0000_0001) by (nonlinear_arith)
        requires
            0 <= a <= 0xFFFF_FFFF,
            0 <= b <= 0xFFFF_FFFF,
    ;
}

/// A monochrome bitmap: every pixel is black or white, none is gray.
pub struct MonoBitmap {
    width: u32,
    height: u32,
    bits: Vec<bool>,
}

impl View for MonoBitmap {
    type V = Grid;

    closed spec fn view(&self) -> Grid {
        Grid { width: self.width as nat, height: self.height as nat, bits: self.bits@ }
    }
}

impl MonoBitmap {
    /// Every bitmap has positive dimensions and one bit per pixel.
    #[verifier::type_invariant]
    pub open spec fn inv(&self) -> bool {
        self@.wf()
    }

    /// An all-white bitmap. There is none with a dimension of zero, nor one
    /// with more pixels than the machine can index.
    pub fn new(width: u32, height: u32) -> (out: Option<MonoBitmap>)
        ensures
            out is Some <==> width > 0 && height > 0 && width * height <= usize::MAX,
            out matches Some(bitmap) ==> bitmap@ == Grid::blank(width as nat, height as nat),
    {
        if width == 0 || height == 0 {
            return None;
        }
        proof {
            lemma_u32_product(width, height);
        }
        let total: u64 = (width as u64) * (height as u64);
        if total > usize::MAX as u64 {
            return None;
        }
        let bits: Vec<bool> = vec![false; total as usize];
        assert(bits@ =~= Seq::new((width as nat) * (height as nat), |i: int| false));
        Some(MonoBitmap { width, height, bits })
    }

    /// A bitmap from its rows, top row first, each row left to right.
    pub fn from_bits(width: u32, height: u32, bits: Vec<bool>) -> (out: Option<MonoBitmap>)
        ensures
            out is Some <==> width > 0 && height > 0 && bits@.len() == width * height,
            out matches Some(bitmap) ==> bitmap@ == (Grid {
                width: width as nat,
                height: height as nat,
                bits: bits@,
            }),
    {
        if width == 0 || height == 0 {
            return None;
        }
        proof {
            lemma_u32_product(width, height);
        }
        let total: u64 = (width as u64) * (height as u64);
        if bits.len() as u64 != total {
            return None;
        }
        Some(MonoBitmap { width, height, bits })
    }

    /// A bitmap from rows that are known to fit the dimensions.
    pub(crate) fn assemble(width: u32, height: u32, bits: Vec<bool>) -> (out: MonoBitmap)
        requires
            width > 0,
            height > 0,
            bits@.len() == width * height,
        ensures
            out@ == (Grid { width: width as nat, height: height as nat, bits: bits@ }),
    {
        MonoBitmap { width, height, bits }
    }

    /// The width in pixels.
    pub fn width(&self) -> (w: u32)
        ensures
            w == self@.width,
            w > 0,
    {
        proof {
            use_type_invariant(self);
        }
        self.width
    }

    /// The height in pixels.
    pub fn height(&self) -> (h: u32)
        ensures
            h == self@.height,
            h > 0,
    {
        proof {
            use_type_invariant(self);
        }
        self.height
    }

    /// The number of pixels.
    pub fn pixel_count(&self) -> (n: usize)
        ensures
            n == self@.width * self@.height,
    {
        proof {
            use_type_invariant(self);
        }
        self.bits.len()
    }

    /// Whether the pixel at column `x` of row `y` is black; white off the
    /// bitmap.
    pub fn get(&self, x: u32, y: u32) -> (black: bool)
        ensures
            black == self@.black(x as int, y as int),
    {
        proof {
            use_type_invariant(self);
        }
        if x >= self.width || y >= self.height {
            return false;
        }
        let total: usize = self.bits.len();
        proof {
            lemma_cell_index(x as int, y as int, self.width as int, self.height as int);
        }
        let idx: usize = (y as usize) * (self.width as usize) + (x as usize);
        self.bits[idx]
    }

    /// Makes the pixel at column `x` of row `y` black. A position off the
    /// bitmap is ignored.
    pub fn set_black(&mut self, x: u32, y: u32)
        ensures
            final(self)@ == old(self)@.with_black(x as int, y as int),
    {
        proof {
            use_type_invariant(&*self);
        }
        if x >= self.width || y >= self.height {
            return ;
        }
        let total: usize = self.bits.len();
        proof {
            lemma_cell_index(x as int, y as int, self.width as int, self.height as int);
        }
        let idx: usize = (y as usize) * (self.width as usize) + (x as usize);
        self.bits[idx] = true;
    }

    /// The number of black pixels.
    pub fn black_count(&self) -> (n: usize)
        ensures
            n == self@.black_count(),
    {
        let total: usize = self.bits.len();
        let mut n: usize = 0;
        let mut i: usize = 0;
        while i < total
            invariant
                total == self.bits@.len(),
                i <= total,
                n == count_true(self.bits@.take(i as int)),
                n <= i,
            decreases total - i,
        {
            proof {
                assert(self.bits@.take(i + 1).drop_last() == self.bits@.take(i as int));
            }
            if self.bits[i] {
                n += 1;
            }
            i += 1;
        }
        assert(self.bits@.take(total as int) == self.bits@);
        n
    }
}

/// The bitmap turned a quarter clockwise.
pub fn rotate90(img: &MonoBitmap) -> (out: MonoBitmap)
    ensures
        out@ == img@.rotated(),
{
    proof {
        use_type_invariant(img);
    }
    let w: u32 = img.width;
    let h: u32 = img.height;
    let ghost g: Grid = img@;
    let mut bits: Vec<bool> = Vec::new();
    let mut row: u32 = 0;
    while row < w
        invariant
            g == img@,
            g.wf(),
            w == g.width,
            h == g.height,
            row <= w,
            bits@.len() == row * h,
            forall|i: int| 0 <= i < bits@.len() ==> bits@[i] == g.rotated().bits[i],
        decreases w - row,
    {
        let mut col: u32 = 0;
        while col < h
            invariant
                g == img@,
                g.wf(),
                w == g.width,
                h == g.height,
                row < w,
                col <= h,
                bits@.len() == row * h + col,
                forall|i: int| 0 <= i < bits@.len() ==> bits@[i] == g.rotated().bits[i],
            decreases h - col,
        {
            let b: bool = img.get(row, h - 1 - col);
            proof {
                let i: int = row * h + col;
                lemma_cell_index(col as int, row as int, h as int, w as int);
                assert(w * h == h * w) by (nonlinear_arith);
                lemma_cell_index(row as int, h - 1 - col, w as int, h as int);
            }
            bits.push(b);
            col += 1;
        }
        assert(row * h + h == (row + 1) * h) by (nonlinear_arith);
        row += 1;
    }
    proof {
        assert(w * h == h * w) by (nonlinear_arith);
        assert(bits@ =~= g.rotated().bits);
    }
    MonoBitmap::assemble(h, w, bits)
}

} // verus!
