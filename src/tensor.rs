use vstd::prelude::*;
use crate::quantize::{Quantized, Ratio};

verus! {

/// `r * cols + c` addresses a cell of a `rows` by `cols` grid.
pub proof fn lemma_flat_index(r: int, c: int, rows: int, cols: int)
    requires
        0 <= r < rows,
        0 <= c < cols,
    ensures
        0 <= r * cols <= r * cols + c < rows * cols,
{
    assert(0 <= r * cols <= r * cols + c < rows * cols) by (nonlinear_arith)
        requires
            0 <= r < rows,
            0 <= c < cols,
    ;
}

/// A quantized tensor of one batch and one group: `rows` by `cols` pixels in
/// row-major order, each holding its channel codes, with
/// `real = scale * (code - zero_point)`.
///
/// A pixel may store fewer codes than `chans`; reading a channel past its end
/// reads its channel 0 instead (broadcast of a single-channel pixel).
#[derive(Clone, Debug, PartialEq)]
pub struct Tensor4D<T> {
    pub rows: usize,
    pub cols: usize,
    pub chans: usize,
    pub pixels: Vec<Vec<T>>,
    pub scale: Ratio,
    pub zero_point: T,
}

impl<T: Quantized> Tensor4D<T> {
    /// One pixel per grid cell, each with at least one code.
    pub open spec fn wf(&self) -> bool {
        &&& self.pixels@.len() == self.rows * self.cols
        &&& forall|p: int| 0 <= p < self.pixels@.len() ==> #[trigger] self.pixels@[p]@.len() >= 1
    }

    pub open spec fn in_bounds(&self, r: int, c: int) -> bool {
        0 <= r < self.rows && 0 <= c < self.cols
    }

    /// The codes stored at pixel `(r, c)`.
    pub open spec fn pixel(&self, r: int, c: int) -> Seq<T> {
        self.pixels@[r * self.cols + c]@
    }

    /// Channel `ch` at `(r, c)`, falling back to channel 0 where the pixel
    /// stores no code for `ch`.
    pub open spec fn code_at(&self, r: int, c: int, ch: int) -> int {
        let px = self.pixel(r, c);
        if 0 <= ch < px.len() {
            px[ch].code()
        } else {
            px[0].code()
        }
    }

    /// Builds a tensor; `None` unless there are `rows * cols` pixels and
    /// each holds at least one code.
    pub fn new(
        rows: usize,
        cols: usize,
        chans: usize,
        pixels: Vec<Vec<T>>,
        scale: Ratio,
        zero_point: T,
    ) -> (r: Option<Tensor4D<T>>)
        ensures
            r.is_some() <==> (pixels@.len() == rows * cols && forall|p: int|
                0 <= p < pixels@.len() ==> #[trigger] pixels@[p]@.len() >= 1),
            r matches Some(t) ==> (t.wf() && t.rows == rows && t.cols == cols && t.chans == chans
                && t.pixels@ == pixels@ && t.scale == scale && t.zero_point == zero_point),
    {
        proof {
            let (a, b) = (rows as int, cols as int);
            assert(a * b <= 0xffff_ffff_ffff_ffff * 0xffff_ffff_ffff_ffff) by (nonlinear_arith)
                requires
                    0 <= a <= 0xffff_ffff_ffff_ffff,
                    0 <= b <= 0xffff_ffff_ffff_ffff,
            ;
        }
        if rows as u128 * cols as u128 != pixels.len() as u128 {
            return None;
        }
        let mut p: usize = 0;
        while p < pixels.len()
            invariant
                p <= pixels@.len(),
                forall|q: int| 0 <= q < p ==> #[trigger] pixels@[q]@.len() >= 1,
            decreases pixels@.len() - p,
        {
            if pixels[p].len() == 0 {
                return None;
            }
            p += 1;
        }
        Some(Tensor4D { rows, cols, chans, pixels, scale, zero_point })
    }

    /// The codes stored at `(row, col)`, or `None` outside the grid.
    pub fn get(&self, row: usize, col: usize) -> (r: Option<&Vec<T>>)
        requires
            self.wf(),
        ensures
            r.is_some() <==> self.in_bounds(row as int, col as int),
            r matches Some(px) ==> px@ == self.pixel(row as int, col as int),
    {
        if row < self.rows && col < self.cols {
            let len = self.pixels.len();
            proof {
                lemma_flat_index(row as int, col as int, self.rows as int, self.cols as int);
                assert(row * self.cols + col < len);
            }
            Some(&self.pixels[row * self.cols + col])
        } else {
            None
        }
    }

    /// Channel `ch` at `(row, col)`, with the channel-0 fallback.
    pub fn channel(&self, row: usize, col: usize, ch: usize) -> (r: T)
        requires
            self.wf(),
            self.in_bounds(row as int, col as int),
        ensures
            r.code() == self.code_at(row as int, col as int, ch as int),
    {
        let len = self.pixels.len();
        proof {
            lemma_flat_index(row as int, col as int, self.rows as int, self.cols as int);
            assert(row * self.cols + col < len);
        }
        let px = &self.pixels[row * self.cols + col];
        assert(px@.len() >= 1);
        if ch < px.len() {
            px[ch]
        } else {
            px[0]
        }
    }
}

} // verus!
