//! The scene description: ASCII art turned into sphere positions.
//!
//! The art is a grid of bytes, one line per row.  Every byte that is not a
//! blank is one unit sphere.  A glyph in column `k` of row `j` (counting
//! rows from the top of a grid of `n` rows) sits at `x = k` and depth
//! `z = -(n - j) - 1`; every object shares one fixed lateral offset, which
//! the renderer applies when it turns a position into scene coordinates.

use vstd::prelude::*;

verus! {

/// Grid position of one unit sphere of the scene.
#[derive(Clone, Copy, Debug, PartialEq, Eq, Structural)]
pub struct ObjectPos {
    /// The column of the glyph.
    pub x: usize,
    /// The depth of the glyph's row; always negative.
    pub z: i64,
}

/// The scene's art: one entry per grid row, one byte per column.
pub struct Art(pub Vec<Vec<u8>>);

/// Only a blank leaves a grid cell empty.
pub open spec fn is_blank(b: u8) -> bool {
    b == 0x20
}

/// Whitespace stripped from the end of each line as the art is read.
pub open spec fn is_trailing_space(b: u8) -> bool {
    b == 0x20 || b == 0x09 || b == 0x0a || b == 0x0d
}

/// A line with its trailing whitespace removed.
pub open spec fn trimmed(line: Seq<u8>) -> Seq<u8>
    decreases line.len(),
{
    if line.len() > 0 && is_trailing_space(line.last()) {
        trimmed(line.drop_last())
    } else {
        line
    }
}

/// The depth of row `j` on a grid of `n` rows.
pub open spec fn depth_of(n: int, j: int) -> int {
    -(n - j) - 1
}

/// The objects among the first `k` columns of one row at depth `z`, in
/// column order.
pub open spec fn row_objects_prefix(line: Seq<u8>, k: int, z: i64) -> Seq<ObjectPos>
    decreases k,
{
    if k <= 0 {
        Seq::empty()
    } else if is_blank(line[k - 1]) {
        row_objects_prefix(line, k - 1, z)
    } else {
        row_objects_prefix(line, k - 1, z).push(ObjectPos { x: (k - 1) as usize, z: z })
    }
}

/// All objects of one row at depth `z`.
pub open spec fn row_objects(line: Seq<u8>, z: i64) -> Seq<ObjectPos> {
    row_objects_prefix(line, line.len() as int, z)
}

/// The objects of the first `j` rows, row by row.
pub open spec fn objects_prefix(lines: Seq<Seq<u8>>, j: int) -> Seq<ObjectPos>
    decreases j,
{
    if j <= 0 {
        Seq::empty()
    } else {
        objects_prefix(lines, j - 1) + row_objects(
            lines[j - 1],
            depth_of(lines.len() as int, j - 1) as i64,
        )
    }
}

/// Every object of the art, top row first, columns left to right.
pub open spec fn objects_spec(lines: Seq<Seq<u8>>) -> Seq<ObjectPos> {
    objects_prefix(lines, lines.len() as int)
}

/// Whether `b` is whitespace that line trimming removes.
fn is_space_byte(b: u8) -> (r: bool)
    ensures
        r == is_trailing_space(b),
{
    b == 0x20 || b == 0x09 || b == 0x0a || b == 0x0d
}

/// Copies a line without its trailing whitespace.
fn trim_line(line: &Vec<u8>) -> (r: Vec<u8>)
    ensures
        r@ == trimmed(line@),
{
    let mut end: usize = line.len();
    proof {
        assert(line@.take(end as int) =~= line@);
    }
    while end > 0 && is_space_byte(line[end - 1])
        invariant
            end <= line@.len(),
            trimmed(line@) == trimmed(line@.take(end as int)),
        decreases end,
    {
        proof {
            assert(line@.take(end as int).drop_last() =~= line@.take(end - 1));
            assert(line@.take(end as int).last() == line@[end - 1]);
        }
        end = end - 1;
    }
    proof {
        assert(trimmed(line@) == line@.take(end as int));
    }
    let mut r: Vec<u8> = Vec::new();
    let mut i: usize = 0;
    while i < end
        invariant
            i <= end,
            end <= line@.len(),
            r@ == line@.take(i as int),
        decreases end - i,
    {
        r.push(line[i]);
        proof {
            assert(line@.take(i as int).push(line@[i as int]) =~= line@.take(i + 1));
        }
        i = i + 1;
    }
    r
}

impl Art {
    /// The grid rows as mathematical byte sequences.
    pub open spec fn lines_view(self) -> Seq<Seq<u8>> {
        self.0@.map_values(|l: Vec<u8>| l@)
    }

    /// Builds the art from raw lines, stripping each line's trailing
    /// whitespace so that stray line endings never count as objects.
    pub fn new(lines: Vec<Vec<u8>>) -> (r: Art)
        ensures
            r.0@.len() == lines@.len(),
            forall|i: int| 0 <= i < lines@.len() ==> r.0@[i]@ == trimmed(lines@[i]@),
    {
        let mut out: Vec<Vec<u8>> = Vec::new();
        let mut j: usize = 0;
        while j < lines.len()
            invariant
                j <= lines@.len(),
                out@.len() == j,
                forall|i: int| 0 <= i < j ==> out@[i]@ == trimmed(lines@[i]@),
            decreases lines@.len() - j,
        {
            out.push(trim_line(&lines[j]));
            j = j + 1;
        }
        Art(out)
    }

    /// Parses the grid: one object for every non-blank byte, rows from the
    /// top, columns from the left, each at its column and its row's depth.
    pub fn objects(&self) -> (r: Vec<ObjectPos>)
        requires
            self.0@.len() + 1 <= i64::MAX,
        ensures
            r@ == objects_spec(self.lines_view()),
    {
        let n = self.0.len();
        let mut out: Vec<ObjectPos> = Vec::new();
        let mut j: usize = 0;
        proof {
            assert(out@ =~= objects_prefix(self.lines_view(), 0));
        }
        while j < n
            invariant
                j <= n,
                n == self.0@.len(),
                n + 1 <= i64::MAX,
                out@ == objects_prefix(self.lines_view(), j as int),
            decreases n - j,
        {
            let line: &Vec<u8> = &self.0[j];
            let z: i64 = -((n - j) as i64) - 1;
            proof {
                assert(z == depth_of(n as int, j as int));
                assert(self.lines_view()[j as int] == line@);
            }
            let m = line.len();
            let mut k: usize = 0;
            proof {
                assert(out@ =~= objects_prefix(self.lines_view(), j as int) + row_objects_prefix(
                    line@,
                    0,
                    z,
                ));
            }
            while k < m
                invariant
                    k <= m,
                    m == line@.len(),
                    out@ == objects_prefix(self.lines_view(), j as int) + row_objects_prefix(
                        line@,
                        k as int,
                        z,
                    ),
                decreases m - k,
            {
                let b = line[k];
                if b != 0x20u8 {
                    out.push(ObjectPos { x: k, z });
                    proof {
                        assert(out@ =~= objects_prefix(self.lines_view(), j as int)
                            + row_objects_prefix(line@, k + 1, z));
                    }
                } else {
                    proof {
                        assert(row_objects_prefix(line@, k + 1, z) == row_objects_prefix(
                            line@,
                            k as int,
                            z,
                        ));
                    }
                }
                k = k + 1;
            }
            proof {
                assert(row_objects_prefix(line@, m as int, z) == row_objects(line@, z));
                assert(out@ == objects_prefix(self.lines_view(), j as int) + row_objects(
                    self.lines_view()[j as int],
                    depth_of(self.lines_view().len() as int, j as int) as i64,
                ));
                assert(out@ == objects_prefix(self.lines_view(), j + 1));
            }
            j = j + 1;
        }
        out
    }
}

} // verus!
