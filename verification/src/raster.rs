use crate::bitmap::{lemma_cell_index, lemma_index_cell, Grid, MonoBitmap};
use crate::config::Polarity;
use vstd::prelude::*;

verus! {

/// The number of bytes that hold one row of `width` pixels.
pub open spec fn bytes_per_row(width: nat) -> nat {
    (width + 7) / 8
}

/// The weight of bit `j` of a byte, counted from the left: bit 0 is the
/// most significant one.
pub open spec fn bit_weight(j: int) -> nat {
    if j == 0 {
        128
    } else if j == 1 {
        64
    } else if j == 2 {
        32
    } else if j == 3 {
        16
    } else if j == 4 {
        8
    } else if j == 5 {
        4
    } else if j == 6 {
        2
    } else {
        1
    }
}

/// Whether bit `j` of `byte`, counted from the left, is set.
pub open spec fn bit_set(byte: u8, j: int) -> bool {
    (byte as nat / bit_weight(j)) % 2 == 1
}

/// One for a black pixel, zero for a white one or a position off the grid.
pub open spec fn ink(g: Grid, x: int, y: int) -> nat {
    if g.black(x, y) {
        1
    } else {
        0
    }
}

/// The byte that holds the pixels `8k` to `8k + 7` of row `y`, the leftmost
/// pixel in the most significant bit, before any inversion.
pub open spec fn packed_value(g: Grid, y: int, k: int) -> nat {
    128 * ink(g, 8 * k, y) + 64 * ink(g, 8 * k + 1, y) + 32 * ink(g, 8 * k + 2, y) + 16 * ink(
        g,
        8 * k + 3,
        y,
    ) + 8 * ink(g, 8 * k + 4, y) + 4 * ink(g, 8 * k + 5, y) + 2 * ink(g, 8 * k + 6, y) + ink(
        g,
        8 * k + 7,
        y,
    )
}

/// Byte `k` of packed row `y`: every bit flipped where the polarity is
/// inverted.
pub open spec fn packed_byte(g: Grid, y: int, k: int, inverted: bool) -> u8 {
    if inverted {
        (255 - packed_value(g, y, k)) as u8
    } else {
        packed_value(g, y, k) as u8
    }
}

impl Polarity {
    /// Whether every packed byte is flipped.
    pub open spec fn inverts(self) -> bool {
        self == Polarity::Inverted
    }
}

/// The mathematical model of a packed raster: `height` rows of
/// `bytes_per_row(width)` bytes each.
pub struct PackedGrid {
    pub width: nat,
    pub height: nat,
    pub inverted: bool,
    pub rows: Seq<u8>,
}

impl PackedGrid {
    /// The length of one row in bytes.
    pub open spec fn bytes_per_row(self) -> nat {
        bytes_per_row(self.width)
    }

    /// Whether the bit at column `x` of row `y` stands for a black pixel.
    /// Columns run over the whole row, padding included.
    pub open spec fn black(self, x: int, y: int) -> bool {
        &&& 0 <= y < self.height
        &&& 0 <= x < 8 * self.bytes_per_row()
        &&& bit_set(self.rows[y * self.bytes_per_row() + x / 8], x % 8) != self.inverted
    }

    /// Positive dimensions, exactly `bytes_per_row * height` bytes, and
    /// white padding: in the last byte of a row the bits beyond `width` are
    /// zero (one, where the polarity is inverted).
    pub open spec fn wf(self) -> bool {
        &&& self.width > 0
        &&& self.height > 0
        &&& self.rows.len() == self.bytes_per_row() * self.height
        &&& forall|x: int, y: int|
            0 <= y < self.height && self.width <= x < 8 * self.bytes_per_row()
                ==> !#[trigger] self.black(x, y)
    }
}

/// The packed form of a grid.
pub open spec fn pack_spec(g: Grid, inverted: bool) -> PackedGrid {
    PackedGrid {
        width: g.width,
        height: g.height,
        inverted,
        rows: Seq::new(
            bytes_per_row(g.width) * g.height,
            |i: int|
                packed_byte(
                    g,
                    i / (bytes_per_row(g.width) as int),
                    i % (bytes_per_row(g.width) as int),
                    inverted,
                ),
        ),
    }
}

/// The grid that a packed raster stands for.
pub open spec fn unpack_spec(p: PackedGrid) -> Grid {
    Grid {
        width: p.width,
        height: p.height,
        bits: Seq::new(
            p.width * p.height,
            |i: int| p.black(i % (p.width as int), i / (p.width as int)),
        ),
    }
}

/// Each bit of a byte built from eight bits can be read back, from the
/// byte and from the flipped byte.
proof fn lemma_bits_of_byte(
    b0: u8,
    b1: u8,
    b2: u8,
    b3: u8,
    b4: u8,
    b5: u8,
    b6: u8,
    b7: u8,
    v: u8,
    f: u8,
)
    by (bit_vector)
    requires
        b0 <= 1,
        b1 <= 1,
        b2 <= 1,
        b3 <= 1,
        b4 <= 1,
        b5 <= 1,
        b6 <= 1,
        b7 <= 1,
        v == 128 * b0 + 64 * b1 + 32 * b2 + 16 * b3 + 8 * b4 + 4 * b5 + 2 * b6 + b7,
        f + v == 255,
    ensures
        (v / 128) % 2 == b0,
        (v / 64) % 2 == b1,
        (v / 32) % 2 == b2,
        (v / 16) % 2 == b3,
        (v / 8) % 2 == b4,
        (v / 4) % 2 == b5,
        (v / 2) % 2 == b6,
        (v / 1) % 2 == b7,
        (f / 128) % 2 + b0 == 1,
        (f / 64) % 2 + b1 == 1,
        (f / 32) % 2 + b2 == 1,
        (f / 16) % 2 + b3 == 1,
        (f / 8) % 2 + b4 == 1,
        (f / 4) % 2 + b5 == 1,
        (f / 2) % 2 + b6 == 1,
        (f / 1) % 2 + b7 == 1,
{
}

/// Bit `j` of a byte built from eight bits is the `j`-th of them, and the
/// flipped byte holds the flipped bit.
proof fn lemma_bit_of_bits(
    b0: nat,
    b1: nat,
    b2: nat,
    b3: nat,
    b4: nat,
    b5: nat,
    b6: nat,
    b7: nat,
    j: int,
)
    requires
        b0 <= 1,
        b1 <= 1,
        b2 <= 1,
        b3 <= 1,
        b4 <= 1,
        b5 <= 1,
        b6 <= 1,
        b7 <= 1,
        0 <= j < 8,
    ensures
        ({
            let v = 128 * b0 + 64 * b1 + 32 * b2 + 16 * b3 + 8 * b4 + 4 * b5 + 2 * b6 + b7;
            let b = if j == 0 {
                b0
            } else if j == 1 {
                b1
            } else if j == 2 {
                b2
            } else if j == 3 {
                b3
            } else if j == 4 {
                b4
            } else if j == 5 {
                b5
            } else if j == 6 {
                b6
            } else {
                b7
            };
            &&& v <= 255
            &&& (v / bit_weight(j)) % 2 == b
            &&& ((255 - v) as nat / bit_weight(j)) % 2 == 1 - b
        }),
{
    let v = 128 * b0 + 64 * b1 + 32 * b2 + 16 * b3 + 8 * b4 + 4 * b5 + 2 * b6 + b7;
    lemma_bits_of_byte(
        b0 as u8,
        b1 as u8,
        b2 as u8,
        b3 as u8,
        b4 as u8,
        b5 as u8,
        b6 as u8,
        b7 as u8,
        v as u8,
        (255 - v) as u8,
    );
}

/// A byte is the weighted sum of its eight bits.
proof fn lemma_byte_of_bits(v: u8)
    ensures
        v == 128 * ((v as nat / 128) % 2) + 64 * ((v as nat / 64) % 2) + 32 * ((v as nat / 32) % 2)
            + 16 * ((v as nat / 16) % 2) + 8 * ((v as nat / 8) % 2) + 4 * ((v as nat / 4) % 2) + 2
            * ((v as nat / 2) % 2) + (v as nat / 1) % 2,
{
    assert(v == 128 * ((v / 128) % 2) + 64 * ((v / 64) % 2) + 32 * ((v / 32) % 2) + 16 * ((v / 16)
        % 2) + 8 * ((v / 8) % 2) + 4 * ((v / 4) % 2) + 2 * ((v / 2) % 2) + (v / 1) % 2)
        by (bit_vector);
}

/// Whether pixel `x` of row `y` is black can be read back from the packed
/// form, on the grid and in the padding.
proof fn lemma_packed_black(g: Grid, inverted: bool, x: int, y: int)
    requires
        g.wf(),
        0 <= y < g.height,
        0 <= x < 8 * bytes_per_row(g.width),
    ensures
        pack_spec(g, inverted).black(x, y) == g.black(x, y),
{
    let bpr: int = bytes_per_row(g.width) as int;
    let k: int = x / 8;
    let j: int = x % 8;
    let p = pack_spec(g, inverted);
    lemma_cell_index(k, y, bpr, g.height as int);
    assert(p.rows[y * bpr + k] == packed_byte(g, y, k, inverted));
    lemma_bit_of_bits(
        ink(g, 8 * k, y),
        ink(g, 8 * k + 1, y),
        ink(g, 8 * k + 2, y),
        ink(g, 8 * k + 3, y),
        ink(g, 8 * k + 4, y),
        ink(g, 8 * k + 5, y),
        ink(g, 8 * k + 6, y),
        ink(g, 8 * k + 7, y),
        j,
    );
    assert(8 * k + j == x);
}

/// Packing keeps the dimensions, yields exactly `bytes_per_row * height`
/// bytes and leaves the padding white.
pub proof fn lemma_pack_wf(g: Grid, inverted: bool)
    requires
        g.wf(),
    ensures
        pack_spec(g, inverted).wf(),
{
    let p = pack_spec(g, inverted);
    assert forall|x: int, y: int|
        0 <= y < p.height && p.width <= x < 8 * p.bytes_per_row() implies !#[trigger] p.black(
        x,
        y,
    ) by {
        lemma_packed_black(g, inverted, x, y);
    }
}

/// Unpacking a packed grid gives the grid back, pixel for pixel, whatever
/// the width, the height and the polarity.
pub proof fn lemma_unpack_pack(g: Grid, inverted: bool)
    requires
        g.wf(),
    ensures
        unpack_spec(pack_spec(g, inverted)) == g,
{
    let p = pack_spec(g, inverted);
    let u = unpack_spec(p);
    assert forall|i: int| 0 <= i < g.bits.len() implies u.bits[i] == g.bits[i] by {
        lemma_index_cell(i, g.width as int, g.height as int);
        let x: int = i % (g.width as int);
        let y: int = i / (g.width as int);
        lemma_packed_black(g, inverted, x, y);
    }
    assert(u.bits =~= g.bits);
}

/// Pixel `8k + j` of row `y` of the unpacked grid is black exactly where
/// bit `j` of byte `k` of that row says so.
proof fn lemma_unpacked_ink(p: PackedGrid, y: int, k: int, j: int)
    requires
        p.wf(),
        0 <= y < p.height,
        0 <= k < p.bytes_per_row(),
        0 <= j < 8,
    ensures
        ink(unpack_spec(p), 8 * k + j, y) == (if p.inverted {
            1 - (p.rows[y * p.bytes_per_row() + k] as nat / bit_weight(j)) % 2
        } else {
            ((p.rows[y * p.bytes_per_row() + k] as nat / bit_weight(j)) % 2) as int
        }),
{
    let g = unpack_spec(p);
    let w: int = p.width as int;
    let x: int = 8 * k + j;
    assert(x / 8 == k && x % 8 == j);
    if x < w {
        lemma_cell_index(x, y, w, p.height as int);
        assert(g.bits[y * w + x] == p.black(x, y));
    } else {
        assert(!p.black(x, y));
    }
}

/// Packing row `y` of the unpacked grid gives byte `k` of that row back.
proof fn lemma_repacked_byte(p: PackedGrid, y: int, k: int)
    requires
        p.wf(),
        0 <= y < p.height,
        0 <= k < p.bytes_per_row(),
    ensures
        packed_byte(unpack_spec(p), y, k, p.inverted) == p.rows[y * p.bytes_per_row() + k],
{
    let g = unpack_spec(p);
    let v: u8 = p.rows[y * p.bytes_per_row() + k];
    lemma_unpacked_ink(p, y, k, 0);
    lemma_unpacked_ink(p, y, k, 1);
    lemma_unpacked_ink(p, y, k, 2);
    lemma_unpacked_ink(p, y, k, 3);
    lemma_unpacked_ink(p, y, k, 4);
    lemma_unpacked_ink(p, y, k, 5);
    lemma_unpacked_ink(p, y, k, 6);
    lemma_unpacked_ink(p, y, k, 7);
    lemma_byte_of_bits(v);
    let b0 = (v as nat / 128) % 2;
    let b1 = (v as nat / 64) % 2;
    let b2 = (v as nat / 32) % 2;
    let b3 = (v as nat / 16) % 2;
    let b4 = (v as nat / 8) % 2;
    let b5 = (v as nat / 4) % 2;
    let b6 = (v as nat / 2) % 2;
    let b7 = (v as nat / 1) % 2;
    assert(v == 128 * b0 + 64 * b1 + 32 * b2 + 16 * b3 + 8 * b4 + 4 * b5 + 2 * b6 + b7);
    assert(8 * k + 0 == 8 * k);
    if p.inverted {
        assert(packed_value(g, y, k) == 128 * (1 - b0) + 64 * (1 - b1) + 32 * (1 - b2) + 16 * (1
            - b3) + 8 * (1 - b4) + 4 * (1 - b5) + 2 * (1 - b6) + (1 - b7));
        assert(packed_value(g, y, k) == 255 - v);
    } else {
        assert(packed_value(g, y, k) == 128 * b0 + 64 * b1 + 32 * b2 + 16 * b3 + 8 * b4 + 4 * b5
            + 2 * b6 + b7);
    }
}

/// Packing an unpacked raster gives the raster back, byte for byte: white
/// padding leaves one packed form to each grid.
pub proof fn lemma_pack_unpack(p: PackedGrid)
    requires
        p.wf(),
    ensures
        unpack_spec(p).wf(),
        pack_spec(unpack_spec(p), p.inverted) == p,
{
    let g = unpack_spec(p);
    let q = pack_spec(g, p.inverted);
    let bpr: int = p.bytes_per_row() as int;
    assert forall|i: int| 0 <= i < p.rows.len() implies q.rows[i] == p.rows[i] by {
        lemma_index_cell(i, bpr, p.height as int);
        lemma_repacked_byte(p, i / bpr, i % bpr);
    }
    assert(q.rows =~= p.rows);
}

/// The value of the first `n` pixels from column `start` of row `y`, read
/// as a binary number.
spec fn prefix_value(g: Grid, y: int, start: int, n: nat) -> nat
    decreases n,
{
    if n == 0 {
        0
    } else {
        2 * prefix_value(g, y, start, (n - 1) as nat) + ink(g, start + n - 1, y)
    }
}

/// The first eight pixels of a byte, read as a binary number, are its
/// packed value.
proof fn lemma_prefix_value_full(g: Grid, y: int, k: int)
    ensures
        prefix_value(g, y, 8 * k, 8) == packed_value(g, y, k),
{
    reveal_with_fuel(prefix_value, 9);
}

/// The first `n` pixels, read as a binary number, stay below two to the
/// `n`.
proof fn lemma_prefix_value_bound(g: Grid, y: int, start: int, n: nat)
    requires
        1 <= n <= 8,
    ensures
        prefix_value(g, y, start, n) <= 2 * bit_weight(8 - n) - 1,
    decreases n,
{
    if n > 1 {
        lemma_prefix_value_bound(g, y, start, (n - 1) as nat);
    } else {
        reveal_with_fuel(prefix_value, 2);
    }
}

/// A bitmap packed into the rows that the printer's raster directive takes.
pub struct PackedRaster {
    width: u32,
    height: u32,
    polarity: Polarity,
    rows: Vec<u8>,
}

impl View for PackedRaster {
    type V = PackedGrid;

    closed spec fn view(&self) -> PackedGrid {
        PackedGrid {
            width: self.width as nat,
            height: self.height as nat,
            inverted: self.polarity.inverts(),
            rows: self.rows@,
        }
    }
}

impl PackedRaster {
    /// Every raster is well formed and no larger than a bitmap can be.
    #[verifier::type_invariant]
    pub open spec fn inv(&self) -> bool {
        &&& self@.wf()
        &&& self@.width * self@.height <= usize::MAX
    }

    /// The polarity the raster was packed for.
    pub closed spec fn spec_polarity(&self) -> Polarity {
        self.polarity
    }

    /// The width in pixels.
    pub fn width(&self) -> (w: u32)
        ensures
            w == self@.width,
            w > 0,
    {
        proof {
            use_type_invariant(self);
        }
        self.width
    }

    /// The height in rows.
    pub fn height(&self) -> (h: u32)
        ensures
            h == self@.height,
            h > 0,
    {
        proof {
            use_type_invariant(self);
        }
        self.height
    }

    /// The length of one row in bytes.
    pub fn bytes_per_row(&self) -> (n: u32)
        ensures
            n == self@.bytes_per_row(),
            n > 0,
    {
        proof {
            use_type_invariant(self);
        }
        (self.width - 1) / 8 + 1
    }

    /// The polarity the raster was packed for.
    pub fn polarity(&self) -> (p: Polarity)
        ensures
            p == self.spec_polarity(),
            p.inverts() == self@.inverted,
    {
        self.polarity
    }

    /// The packed rows, top row first.
    pub fn rows(&self) -> (rows: &Vec<u8>)
        ensures
            rows@ == self@.rows,
            rows@.len() == self@.bytes_per_row() * self@.height,
    {
        proof {
            use_type_invariant(self);
        }
        &self.rows
    }

    /// Whether the pixel at column `x` of row `y` is black; white off the
    /// raster.
    pub fn get(&self, x: u32, y: u32) -> (black: bool)
        ensures
            black == unpack_spec(self@).black(x as int, y as int),
    {
        proof {
            use_type_invariant(self);
        }
        if x >= self.width || y >= self.height {
            return false;
        }
        let bpr: usize = ((self.width - 1) / 8 + 1) as usize;
        let total: usize = self.rows.len();
        proof {
            lemma_cell_index((x / 8) as int, y as int, bpr as int, self.height as int);
            lemma_cell_index(x as int, y as int, self.width as int, self.height as int);
        }
        let byte: u8 = self.rows[(y as usize) * bpr + (x / 8) as usize];
        let set: bool = (byte / mask_of(x % 8)) % 2 == 1;
        set != is_inverted(self.polarity)
    }

    /// A copy of the raster.
    pub fn duplicate(&self) -> (out: PackedRaster)
        ensures
            out@ == self@,
            out.spec_polarity() == self.spec_polarity(),
    {
        proof {
            use_type_invariant(self);
        }
        let rows: Vec<u8> = self.rows.clone();
        proof {
            assert(rows@ =~= self.rows@);
        }
        PackedRaster { width: self.width, height: self.height, polarity: self.polarity, rows }
    }

    /// The bitmap that the raster stands for.
    pub fn unpack(&self) -> (out: MonoBitmap)
        ensures
            out@ == unpack_spec(self@),
    {
        proof {
            use_type_invariant(self);
        }
        let w: u32 = self.width;
        let h: u32 = self.height;
        let ghost g: Grid = unpack_spec(self@);
        let mut bits: Vec<bool> = Vec::new();
        let mut y: u32 = 0;
        while y < h
            invariant
                g == unpack_spec(self@),
                w == self@.width,
                h == self@.height,
                w > 0,
                y <= h,
                bits@.len() == y * w,
                forall|i: int| 0 <= i < bits@.len() ==> bits@[i] == g.bits[i],
            decreases h - y,
        {
            let mut x: u32 = 0;
            while x < w
                invariant
                    g == unpack_spec(self@),
                    w == self@.width,
                    h == self@.height,
                    y < h,
                    x <= w,
                    bits@.len() == y * w + x,
                    forall|i: int| 0 <= i < bits@.len() ==> bits@[i] == g.bits[i],
                decreases w - x,
            {
                let b: bool = self.get(x, y);
                proof {
                    lemma_cell_index(x as int, y as int, w as int, h as int);
                }
                bits.push(b);
                x += 1;
            }
            assert(y * w + w == (y + 1) * w) by (nonlinear_arith);
            y += 1;
        }
        proof {
            assert(h * w == w * h) by (nonlinear_arith);
            assert(bits@ =~= g.bits);
        }
        MonoBitmap::assemble(w, h, bits)
    }
}

/// Whether every packed byte is flipped for this polarity.
pub fn is_inverted(polarity: Polarity) -> (b: bool)
    ensures
        b == polarity.inverts(),
{
    match polarity {
        Polarity::Normal => false,
        Polarity::Inverted => true,
    }
}

/// The byte with only bit `j`, counted from the left, set.
fn mask_of(j: u32) -> (m: u8)
    requires
        j < 8,
    ensures
        m == bit_weight(j as int),
        m > 0,
{
    if j == 0 {
        128
    } else if j == 1 {
        64
    } else if j == 2 {
        32
    } else if j == 3 {
        16
    } else if j == 4 {
        8
    } else if j == 5 {
        4
    } else if j == 6 {
        2
    } else {
        1
    }
}

/// Packs a bitmap row by row, eight pixels to the byte, the leftmost pixel
/// of each byte in its most significant bit. The last byte of a row is
/// padded with white. Where the polarity is inverted every byte is flipped.
pub fn image_to_row_bytes(img: &MonoBitmap, polarity: Polarity) -> (out: PackedRaster)
    ensures
        out@ == pack_spec(img@, polarity.inverts()),
        out.spec_polarity() == polarity,
        unpack_spec(out@) == img@,
{
    let w: u32 = img.width();
    let h: u32 = img.height();
    let bpr: u32 = (w - 1) / 8 + 1;
    let inverted: bool = is_inverted(polarity);
    let ghost g: Grid = img@;
    let ghost p: PackedGrid = pack_spec(g, inverted);
    proof {
        use_type_invariant(img);
    }
    let mut rows: Vec<u8> = Vec::new();
    let mut y: u32 = 0;
    while y < h
        invariant
            g == img@,
            g.wf(),
            p == pack_spec(g, inverted),
            w == g.width,
            h == g.height,
            bpr == bytes_per_row(g.width),
            y <= h,
            rows@.len() == y * bpr,
            forall|i: int| 0 <= i < rows@.len() ==> rows@[i] == p.rows[i],
        decreases h - y,
    {
        let mut k: u32 = 0;
        while k < bpr
            invariant
                g == img@,
                g.wf(),
                p == pack_spec(g, inverted),
                w == g.width,
                h == g.height,
                bpr == bytes_per_row(g.width),
                y < h,
                k <= bpr,
                rows@.len() == y * bpr + k,
                forall|i: int| 0 <= i < rows@.len() ==> rows@[i] == p.rows[i],
            decreases bpr - k,
        {
            let mut v: u8 = 0;
            let mut j: u32 = 0;
            while j < 8
                invariant
                    g == img@,
                    w == g.width,
                    bpr == bytes_per_row(g.width),
                    k < bpr,
                    j <= 8,
                    v == prefix_value(g, y as int, 8 * k, j as nat),
                decreases 8 - j,
            {
                let x: u64 = 8 * (k as u64) + (j as u64);
                let black: bool = if x < w as u64 {
                    img.get(x as u32, y)
                } else {
                    false
                };
                proof {
                    if j > 0 {
                        lemma_prefix_value_bound(g, y as int, 8 * k, j as nat);
                    }
                    assert(ink(g, x as int, y as int) == if black {
                        1nat
                    } else {
                        0nat
                    });
                }
                v = v * 2 + if black {
                    1
                } else {
                    0
                };
                j += 1;
            }
            proof {
                lemma_prefix_value_full(g, y as int, k as int);
                lemma_cell_index(k as int, y as int, bpr as int, h as int);
            }
            rows.push(
                if inverted {
                    255 - v
                } else {
                    v
                },
            );
            k += 1;
        }
        assert(y * bpr + bpr == (y + 1) * bpr) by (nonlinear_arith);
        y += 1;
    }
    let pixels: usize = img.pixel_count();
    proof {
        assert(h * bpr == bpr * h) by (nonlinear_arith);
        assert(rows@ =~= p.rows);
        lemma_pack_wf(g, inverted);
        lemma_unpack_pack(g, inverted);
    }
    PackedRaster { width: w, height: h, polarity, rows }
}

} // verus!
