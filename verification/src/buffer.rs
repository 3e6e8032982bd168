//! A row-major RGBA pixel buffer: 4 bytes per pixel, stride equal to `width`.
//! All writes are bounds-checked; writes that would fall outside the buffer
//! are dropped rather than panicking.
use crate::palette::Color;
use vstd::prelude::*;

verus! {

pub struct Buffer {
    pub data: Vec<u8>,
    /// Surface width in pixels; the row stride is `4 * width` bytes.
    pub width: usize,
}

/// The byte offset of pixel `(x, y)` in a buffer of the given width.
pub open spec fn spec_pixel_index(width: int, x: int, y: int) -> int {
    (x + y * width) * 4
}

/// Whether a write of pixel `(x, y)` lands fully inside the buffer (and its
/// byte offset is addressable at all).
pub open spec fn pixel_in_bounds(buf: Buffer, x: int, y: int) -> bool {
    &&& x < buf.width
    &&& spec_pixel_index(buf.width as int, x, y) + 4 <= buf.data@.len()
    &&& spec_pixel_index(buf.width as int, x, y) + 4 <= usize::MAX
}

/// The buffer contents after writing `color` at `(x, y)`: the four bytes of
/// that pixel are replaced when the write is in bounds, and nothing changes
/// otherwise.
pub open spec fn spec_write_pixel(buf: Buffer, x: int, y: int, color: Color) -> Seq<u8> {
    if pixel_in_bounds(buf, x, y) {
        let i = spec_pixel_index(buf.width as int, x, y);
        buf.data@.update(i, color[0]).update(i + 1, color[1]).update(i + 2, color[2]).update(
            i + 3,
            color[3],
        )
    } else {
        buf.data@
    }
}

/// The pixel coordinates a byte offset belongs to, for a given row stride.
pub open spec fn byte_pixel_x(width: int, b: int) -> int {
    (b / 4) % width
}

pub open spec fn byte_pixel_y(width: int, b: int) -> int {
    (b / 4) / width
}

/// A byte inside a pixel's four-byte cell belongs to exactly that pixel.
pub proof fn lemma_byte_of_pixel(width: int, px: int, py: int, b: int)
    requires
        width > 0,
        0 <= px < width,
        0 <= py,
        spec_pixel_index(width, px, py) <= b < spec_pixel_index(width, px, py) + 4,
    ensures
        byte_pixel_x(width, b) == px,
        byte_pixel_y(width, b) == py,
{
    let m = px + py * width;
    assert(b / 4 == m) by (nonlinear_arith)
        requires
            4 * m <= b < 4 * m + 4,
            m == px + py * width,
            spec_pixel_index(width, px, py) == (px + py * width) * 4,
            spec_pixel_index(width, px, py) <= b < spec_pixel_index(width, px, py) + 4,
    ;
    assert(m % width == px && m / width == py) by (nonlinear_arith)
        requires
            m == px + py * width,
            0 <= px < width,
            0 <= py,
    ;
}

/// Distinct pixels of one surface occupy disjoint byte cells.
pub proof fn lemma_pixel_cells_disjoint(width: int, px1: int, py1: int, px2: int, py2: int)
    requires
        0 <= px1 < width,
        0 <= px2 < width,
        0 <= py1,
        0 <= py2,
        (px1, py1) != (px2, py2),
    ensures
        spec_pixel_index(width, px1, py1) + 4 <= spec_pixel_index(width, px2, py2)
            || spec_pixel_index(width, px2, py2) + 4 <= spec_pixel_index(width, px1, py1),
{
    assert(px1 + py1 * width != px2 + py2 * width) by (nonlinear_arith)
        requires
            0 <= px1 < width,
            0 <= px2 < width,
            0 <= py1,
            0 <= py2,
            (px1, py1) != (px2, py2),
    ;
    assert((px1 + py1 * width) * 4 + 4 <= (px2 + py2 * width) * 4 || (px2 + py2 * width) * 4 + 4
        <= (px1 + py1 * width) * 4) by (nonlinear_arith)
        requires
            px1 + py1 * width != px2 + py2 * width,
            0 <= px1 + py1 * width,
            0 <= px2 + py2 * width,
    ;
}

impl Buffer {
    pub fn len(&self) -> (r: usize)
        ensures
            r == self.data@.len(),
    {
        self.data.len()
    }

    /// Writes one pixel, dropping the write if any of its bytes would fall
    /// outside the buffer or past the end of the row's stride.
    pub fn set_pixel(&mut self, x: usize, y: usize, color: Color)
        ensures
            final(self).width == old(self).width,
            final(self).data@ == spec_write_pixel(*old(self), x as int, y as int, color),
    {
        if x >= self.width {
            return ;
        }
        let row = match y.checked_mul(self.width) {
            Some(r) => r,
            None => {
                assert(!pixel_in_bounds(*self, x as int, y as int));
                return ;
            },
        };
        let pos = match x.checked_add(row) {
            Some(p) => p,
            None => {
                assert(!pixel_in_bounds(*self, x as int, y as int));
                return ;
            },
        };
        let idx = match pos.checked_mul(4) {
            Some(i) => i,
            None => {
                assert(!pixel_in_bounds(*self, x as int, y as int));
                return ;
            },
        };
        let end = match idx.checked_add(4) {
            Some(e) => e,
            None => {
                assert(!pixel_in_bounds(*self, x as int, y as int));
                return ;
            },
        };
        if end <= self.data.len() {
            self.data.set(idx, color[0]);
            self.data.set(idx + 1, color[1]);
            self.data.set(idx + 2, color[2]);
            self.data.set(idx + 3, color[3]);
        } else {
            assert(!pixel_in_bounds(*self, x as int, y as int));
        }
    }
}

} // verus!
