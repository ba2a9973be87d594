//! The shared output raster and its serialized form.
//!
//! The buffer holds `size * size` pixels of three bytes each.  Workers
//! sample pixel `(x, y)` with `x` and `y` counted from the bottom-left of
//! the view, while the serialized image runs top row first and left column
//! first, so both coordinates are flipped when a pixel is stored.  The
//! serialized form is a binary pixel dump: the header `P6 {size} {size}
//! 255 ` followed by the raw bytes.

use vstd::prelude::*;

verus! {

/// A square pixel buffer, three bytes per pixel.
pub struct Image {
    pub size: usize,
    pub data: Vec<u8>,
}

/// Byte offset at which the buffer row storing sampled row `y` begins.
pub open spec fn row_base(size: int, y: int) -> int {
    3 * (size - 1 - y) * size
}

/// Byte offset of the first channel of sampled pixel `(x, y)`.
pub open spec fn pixel_base(size: int, x: int, y: int) -> int {
    row_base(size, y) + 3 * (size - 1 - x)
}

/// Decimal digits of `n`, most significant first, as ASCII bytes.
pub open spec fn dec_rep(n: nat) -> Seq<u8>
    decreases n,
{
    if n < 10 {
        seq![(0x30 + n) as u8]
    } else {
        dec_rep(n / 10).push((0x30 + n % 10) as u8)
    }
}

/// The serializer's header: `P6 {size} {size} 255 `.
pub open spec fn ppm_header(size: nat) -> Seq<u8> {
    seq![0x50u8, 0x36u8, 0x20u8] + dec_rep(size) + seq![0x20u8] + dec_rep(size)
        + seq![0x20u8, 0x32u8, 0x35u8, 0x35u8, 0x20u8]
}

/// The full serialized image: header followed by the raw pixel bytes.
pub open spec fn ppm_seq(size: nat, data: Seq<u8>) -> Seq<u8> {
    ppm_header(size) + data
}

/// Appends the decimal digits of `n` to `out`.
fn push_decimal(out: &mut Vec<u8>, n: usize)
    ensures
        final(out)@ == old(out)@ + dec_rep(n as nat),
    decreases n,
{
    if n >= 10 {
        push_decimal(out, n / 10);
    }
    let digit: u8 = (n % 10) as u8;
    out.push(0x30u8 + digit);
    proof {
        assert(out@ =~= old(out)@ + dec_rep(n as nat));
    }
}

/// Scaling a square of a non-negative number by three only grows it.
proof fn lemma_triple_square(s: int)
    by (nonlinear_arith)
    requires
        s >= 0,
    ensures
        s * s <= 3 * s * s,
        3 * (s * s) == 3 * s * s,
{
}

/// For a row inside the image, the row's byte range lies inside the buffer.
proof fn lemma_row_base_in_range(size: int, y: int)
    by (nonlinear_arith)
    requires
        0 <= y < size,
    ensures
        0 <= row_base(size, y),
        row_base(size, y) + 3 * size <= 3 * size * size,
        3 * (size - 1 - y) <= 3 * size * size,
{
}

/// For a pixel inside the image, its three channel bytes lie inside the
/// buffer.
proof fn lemma_pixel_base_in_range(size: int, x: int, y: int)
    by (nonlinear_arith)
    requires
        0 <= x < size,
        0 <= y < size,
    ensures
        0 <= row_base(size, y),
        0 <= 3 * (size - 1 - x) <= 3 * size * size,
        3 * (size - 1 - y) <= 3 * size * size,
        pixel_base(size, x, y) + 3 <= 3 * size * size,
{
}

impl Image {
    /// The buffer holds exactly three bytes for every pixel.
    pub open spec fn wf(self) -> bool {
        self.data@.len() == 3 * self.size * self.size
    }

    /// Allocates a zeroed buffer for a `size` by `size` image.
    pub fn new(size: usize) -> (r: Image)
        requires
            3 * size * size <= usize::MAX,
        ensures
            r.size == size,
            r.wf(),
            forall|i: int| 0 <= i < r.data@.len() ==> r.data@[i] == 0u8,
    {
        proof {
            lemma_triple_square(size as int);
        }
        let pixels: usize = size * size;
        let cap: usize = 3 * pixels;
        let mut data: Vec<u8> = Vec::new();
        let mut i: usize = 0;
        while i < cap
            invariant
                i <= cap,
                data@.len() == i,
                forall|j: int| 0 <= j < i ==> data@[j] == 0u8,
            decreases cap - i,
        {
            data.push(0u8);
            i = i + 1;
        }
        Image { size, data }
    }

    /// Byte offset of the first channel of sampled pixel `(x, y)`, as the
    /// worker loop computes it while walking a row from high `x` to low.
    pub fn pixel_offset(&self, x: usize, y: usize) -> (k: usize)
        requires
            self.wf(),
            x < self.size,
            y < self.size,
        ensures
            k == pixel_base(self.size as int, x as int, y as int),
            k + 3 <= self.data@.len(),
    {
        let total: usize = self.data.len();
        proof {
            lemma_pixel_base_in_range(self.size as int, x as int, y as int);
        }
        3 * (self.size - 1 - y) * self.size + 3 * (self.size - 1 - x)
    }

    /// Stores one pixel's channel triple at its flipped position.
    pub fn write_pixel(&mut self, x: usize, y: usize, red: u8, green: u8, blue: u8)
        requires
            old(self).wf(),
            x < old(self).size,
            y < old(self).size,
        ensures
            final(self).wf(),
            final(self).size == old(self).size,
            final(self).data@.len() == old(self).data@.len(),
            final(self).data@[pixel_base(old(self).size as int, x as int, y as int)] == red,
            final(self).data@[pixel_base(old(self).size as int, x as int, y as int) + 1] == green,
            final(self).data@[pixel_base(old(self).size as int, x as int, y as int) + 2] == blue,
            forall|j: int|
                0 <= j < old(self).data@.len()
                    && !(pixel_base(old(self).size as int, x as int, y as int) <= j
                    < pixel_base(old(self).size as int, x as int, y as int) + 3)
                    ==> final(self).data@[j] == old(self).data@[j],
    {
        let total: usize = self.data.len();
        let k = self.pixel_offset(x, y);
        self.data.set(k, red);
        self.data.set(k + 1, green);
        self.data.set(k + 2, blue);
    }

    /// Stores a whole sampled row: `row` must already be in storage order,
    /// that is three bytes per pixel from column `size - 1` down to `0`.
    pub fn write_row(&mut self, y: usize, row: &Vec<u8>)
        requires
            old(self).wf(),
            y < old(self).size,
            row@.len() == 3 * old(self).size,
        ensures
            final(self).wf(),
            final(self).size == old(self).size,
            final(self).data@.len() == old(self).data@.len(),
            forall|i: int|
                0 <= i < row@.len() ==> final(self).data@[row_base(old(self).size as int,
                    y as int) + i] == row@[i],
            forall|j: int|
                0 <= j < old(self).data@.len() && !(row_base(old(self).size as int, y as int) <= j
                    < row_base(old(self).size as int, y as int) + row@.len())
                    ==> final(self).data@[j] == old(self).data@[j],
    {
        let total: usize = self.data.len();
        proof {
            lemma_row_base_in_range(self.size as int, y as int);
        }
        let base: usize = 3 * (self.size - 1 - y) * self.size;
        let len: usize = 3 * self.size;
        let ghost base_s: int = row_base(old(self).size as int, y as int);
        let mut i: usize = 0;
        while i < len
            invariant
                i <= len,
                len == row@.len(),
                base == base_s,
                base_s == row_base(old(self).size as int, y as int),
                0 <= base_s,
                base_s + len <= self.data@.len(),
                self.data@.len() <= usize::MAX,
                self.size == old(self).size,
                self.data@.len() == old(self).data@.len(),
                forall|k: int| 0 <= k < i ==> self.data@[base_s + k] == row@[k],
                forall|j: int|
                    0 <= j < self.data@.len() && !(base_s <= j < base_s + i) ==> self.data@[j]
                        == old(self).data@[j],
            decreases len - i,
        {
            self.data.set(base + i, row[i]);
            i = i + 1;
        }
    }

    /// Serializes the buffer: the header `P6 {size} {size} 255 ` followed
    /// by the raw pixel bytes.
    pub fn ppm_bytes(&self) -> (r: Vec<u8>)
        ensures
            r@ == ppm_seq(self.size as nat, self.data@),
    {
        let mut out: Vec<u8> = Vec::new();
        out.push(0x50u8);
        out.push(0x36u8);
        out.push(0x20u8);
        push_decimal(&mut out, self.size);
        out.push(0x20u8);
        push_decimal(&mut out, self.size);
        out.push(0x20u8);
        out.push(0x32u8);
        out.push(0x35u8);
        out.push(0x35u8);
        out.push(0x20u8);
        proof {
            assert(out@ =~= ppm_header(self.size as nat) + self.data@.take(0));
        }
        let mut i: usize = 0;
        while i < self.data.len()
            invariant
                i <= self.data@.len(),
                out@ == ppm_header(self.size as nat) + self.data@.take(i as int),
            decreases self.data@.len() - i,
        {
            out.push(self.data[i]);
            proof {
                assert(out@ =~= ppm_header(self.size as nat) + self.data@.take(i + 1));
            }
            i = i + 1;
        }
        proof {
            assert(self.data@.take(self.data@.len() as int) =~= self.data@);
            assert(out@ =~= ppm_seq(self.size as nat, self.data@));
        }
        out
    }
}

/// The serializer is a pure function of the size and the pixel bytes: two
/// serializations of the same buffer are byte-identical.
pub proof fn lemma_ppm_idempotent(size: nat, data: Seq<u8>, r1: Seq<u8>, r2: Seq<u8>)
    requires
        r1 == ppm_seq(size, data),
        r2 == ppm_seq(size, data),
    ensures
        r1 == r2,
{
}

} // verus!
