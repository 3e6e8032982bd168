//! A bitmap widget: owned pixel data drawn at an integer scale factor. Its
//! intrinsic minimum size is its scaled pixel size, so layout never shrinks
//! it below its content.
use crate::buffer::byte_pixel_x;
use crate::buffer::byte_pixel_y;
use crate::buffer::lemma_byte_of_pixel;
use crate::buffer::lemma_pixel_cells_disjoint;
use crate::buffer::pixel_in_bounds;
use crate::buffer::spec_pixel_index;
use crate::buffer::spec_write_pixel;
use crate::buffer::Buffer;
use crate::element::Element;
use crate::element::Emitted;
use crate::layout::CalculatedLayout;
use crate::palette::Color;
use crate::state_tree::State;
use crate::Input;
use vstd::prelude::*;

verus! {

pub struct Image {
    pub data: Vec<Color>,
    pub scale_factor: usize,
    /// image width before scaling
    pub width: usize,
    /// image height before scaling
    pub height: usize,
}

impl Image {
    pub fn new(data: Vec<Color>, width: usize, height: usize) -> (r: Self)
        ensures
            r.data == data,
            r.width == width,
            r.height == height,
            r.scale_factor == 1,
    {
        Self { data, width, height, scale_factor: 1 }
    }

    pub fn scale_factor(self, scale_factor: usize) -> (r: Self)
        requires
            scale_factor != 0,
        ensures
            r == (Image { scale_factor, ..self }),
    {
        Self { scale_factor, ..self }
    }
}

/// The scaled extent along one axis, clamped to what a layout length can
/// hold.
pub open spec fn scaled_extent(extent: int, scale: int) -> int {
    if extent * scale > u32::MAX {
        u32::MAX as int
    } else {
        extent * scale
    }
}

/// The color of image cell `(i, j)`, where the pixel data holds one.
pub open spec fn image_cell_color(img: Image, i: int, j: int) -> Option<Color> {
    let d = i + j * img.width;
    if 0 <= d <= usize::MAX && d < img.data@.len() {
        Some(img.data@[d])
    } else {
        None
    }
}

/// Pixel `(si, sj)` of image cell `(i, j)`'s scaled block shows the cell's
/// color: wherever the pixel data holds the cell and the write lands inside
/// the buffer, the four bytes hold that color.
pub open spec fn image_cell_painted(
    img: Image,
    region: CalculatedLayout,
    pre: Buffer,
    post: Buffer,
    i: int,
    j: int,
    si: int,
    sj: int,
) -> bool {
    let px = region.x + i * img.scale_factor + si;
    let py = region.y + j * img.scale_factor + sj;
    let idx = spec_pixel_index(pre.width as int, px, py);
    match image_cell_color(img, i, j) {
        Some(c) => pixel_in_bounds(pre, px, py) ==> {
            &&& post.data@[idx] == c[0]
            &&& post.data@[idx + 1] == c[1]
            &&& post.data@[idx + 2] == c[2]
            &&& post.data@[idx + 3] == c[3]
        },
        None => true,
    }
}

/// A coordinate past the address space can never be a buffer pixel.
proof fn lemma_far_pixel_out_of_bounds(buf: Buffer, px: int, py: int)
    requires
        px > usize::MAX || py > usize::MAX,
        px >= 0,
        py >= 0,
    ensures
        !pixel_in_bounds(buf, px, py),
{
    if buf.width >= 1 {
        assert((px + py * buf.width) * 4 + 4 > usize::MAX) by (nonlinear_arith)
            requires
                px > usize::MAX || py > usize::MAX,
                buf.width >= 1,
                px >= 0,
                py >= 0,
        ;
    }
}

/// Distinct block positions of distinct cells land on distinct pixels.
proof fn lemma_block_coord_injective(scale: int, a1: int, b1: int, a2: int, b2: int)
    requires
        0 <= b1 < scale,
        0 <= b2 < scale,
        a1 >= 0,
        a2 >= 0,
        (a1, b1) != (a2, b2),
    ensures
        a1 * scale + b1 != a2 * scale + b2,
{
    assert(a1 * scale + b1 != a2 * scale + b2) by (nonlinear_arith)
        requires
            0 <= b1 < scale,
            0 <= b2 < scale,
            a1 >= 0,
            a2 >= 0,
            (a1, b1) != (a2, b2),
    ;
}

/// One block write preserves every other cell pixel and every byte outside
/// the image's scaled footprint.
proof fn lemma_image_draw_step(
    img: Image,
    region: CalculatedLayout,
    orig: Buffer,
    pre: Buffer,
    post: Buffer,
    i: int,
    j: int,
    si: int,
    sj: int,
    color: Color,
)
    requires
        pre.width == orig.width,
        pre.data@.len() == orig.data@.len(),
        post.width == pre.width,
        post.data@ == spec_write_pixel(
            pre,
            region.x + i * img.scale_factor + si,
            region.y + j * img.scale_factor + sj,
            color,
        ),
        image_cell_color(img, i, j) == Some(color),
        0 <= i < img.width,
        0 <= j < img.height,
        0 <= si < img.scale_factor,
        0 <= sj < img.scale_factor,
    ensures
        image_cell_painted(img, region, orig, post, i, j, si, sj),
        forall|i2: int, j2: int, si2: int, sj2: int|
            0 <= i2 < img.width && 0 <= j2 < img.height && 0 <= si2 < img.scale_factor && 0 <= sj2
                < img.scale_factor && (i2, j2, si2, sj2) != (i, j, si, sj) && image_cell_painted(
                img,
                region,
                orig,
                pre,
                i2,
                j2,
                si2,
                sj2,
            ) ==> image_cell_painted(img, region, orig, post, i2, j2, si2, sj2),
        forall|b: int|
            0 <= b < pre.data@.len() && (pre.width == 0 || !(region.x <= byte_pixel_x(
                pre.width as int,
                b,
            ) < region.x + img.width * img.scale_factor && region.y <= byte_pixel_y(
                pre.width as int,
                b,
            ) < region.y + img.height * img.scale_factor)) ==> post.data@[b] == #[trigger] pre.data@[b],
{
    let width = pre.width as int;
    let s = img.scale_factor as int;
    let px = region.x + i * s + si;
    let py = region.y + j * s + sj;
    let idx = spec_pixel_index(width, px, py);
    assert(0 <= i * s + si < img.width * s && 0 <= j * s + sj < img.height * s)
        by (nonlinear_arith)
        requires
            0 <= i < img.width,
            0 <= j < img.height,
            0 <= si < s,
            0 <= sj < s,
    ;
    if pixel_in_bounds(pre, px, py) {
        assert forall|b: int|
            0 <= b < pre.data@.len() && (pre.width == 0 || !(region.x <= byte_pixel_x(width, b)
                < region.x + img.width * img.scale_factor && region.y <= byte_pixel_y(width, b)
                < region.y + img.height * img.scale_factor)) implies post.data@[b]
            == #[trigger] pre.data@[b] by {
            if idx <= b < idx + 4 {
                lemma_byte_of_pixel(width, px, py, b);
            }
        }
        assert forall|i2: int, j2: int, si2: int, sj2: int|
            0 <= i2 < img.width && 0 <= j2 < img.height && 0 <= si2 < img.scale_factor && 0 <= sj2
                < img.scale_factor && (i2, j2, si2, sj2) != (i, j, si, sj) && image_cell_painted(
                img,
                region,
                orig,
                pre,
                i2,
                j2,
                si2,
                sj2,
            ) implies image_cell_painted(img, region, orig, post, i2, j2, si2, sj2) by {
            let px2 = region.x + i2 * s + si2;
            let py2 = region.y + j2 * s + sj2;
            if image_cell_color(img, i2, j2) is Some && pixel_in_bounds(orig, px2, py2) {
                if (i2, si2) != (i, si) {
                    lemma_block_coord_injective(s, i, si, i2, si2);
                } else {
                    lemma_block_coord_injective(s, j, sj, j2, sj2);
                }
                lemma_pixel_cells_disjoint(width, px, py, px2, py2);
            }
        }
    }
}

impl<M> Element<M> for Image {
    open spec fn spec_message(&self, state: State, input: Input, region: CalculatedLayout) -> Option<
        Emitted<M>,
    > {
        None
    }

    open spec fn spec_state_after(&self, state: State, input: Input, region: CalculatedLayout) -> State {
        state
    }

    open spec fn spec_state_matches(&self, state: State) -> bool {
        true
    }

    open spec fn spec_min_width(&self) -> int {
        scaled_extent(self.width as int, self.scale_factor as int)
    }

    open spec fn spec_min_height(&self, width: u32) -> int {
        scaled_extent(self.height as int, self.scale_factor as int)
    }

    open spec fn spec_wrap(&self, width: u32) -> Option<u32> {
        None
    }

    open spec fn spec_initial_state(&self) -> State {
        State::Stateless
    }

    /// Copies each image pixel into a scale-by-scale block of the region:
    /// every in-bounds pixel of every block shows its image pixel's color,
    /// every byte outside the scaled footprint keeps its value, and writes
    /// past the buffer or past the pixel data are dropped.
    #[verifier::loop_isolation(false)]
    #[verifier::rlimit(100)]
    fn draw(&self, frame: &mut Buffer, region: CalculatedLayout)
        ensures
            forall|i: int, j: int, si: int, sj: int|
                0 <= i < self.width && 0 <= j < self.height && 0 <= si < self.scale_factor && 0
                    <= sj < self.scale_factor ==> image_cell_painted(
                    *self,
                    region,
                    *old(frame),
                    *final(frame),
                    i,
                    j,
                    si,
                    sj,
                ),
            old(frame).width == 0 ==> final(frame).data@ == old(frame).data@,
            old(frame).width > 0 ==> forall|b: int|
                0 <= b < old(frame).data@.len() && !(region.x <= byte_pixel_x(
                    old(frame).width as int,
                    b,
                ) < region.x + self.width * self.scale_factor && region.y <= byte_pixel_y(
                    old(frame).width as int,
                    b,
                ) < region.y + self.height * self.scale_factor) ==> final(frame).data@[b]
                    == #[trigger] old(frame).data@[b],
    {
        let ghost width = old(frame).width as int;
        let mut j: usize = 0;
        while j < self.height
            invariant
                frame.width == old(frame).width,
                frame.data@.len() == old(frame).data@.len(),
                0 <= j <= self.height,
                forall|i2: int, j2: int, si2: int, sj2: int|
                    0 <= i2 < self.width && 0 <= j2 < j && 0 <= si2 < self.scale_factor && 0 <= sj2
                        < self.scale_factor ==> image_cell_painted(
                        *self,
                        region,
                        *old(frame),
                        *frame,
                        i2,
                        j2,
                        si2,
                        sj2,
                    ),
                width == 0 ==> frame.data@ == old(frame).data@,
                width > 0 ==> forall|b: int|
                    0 <= b < old(frame).data@.len() && !(region.x <= byte_pixel_x(width, b)
                        < region.x + self.width * self.scale_factor && region.y <= byte_pixel_y(
                        width,
                        b,
                    ) < region.y + self.height * self.scale_factor) ==> frame.data@[b]
                        == #[trigger] old(frame).data@[b],
            decreases self.height - j,
        {
            let mut i: usize = 0;
            while i < self.width
                invariant
                    frame.width == old(frame).width,
                    frame.data@.len() == old(frame).data@.len(),
                    0 <= i <= self.width,
                    0 <= j < self.height,
                    forall|i2: int, j2: int, si2: int, sj2: int|
                        0 <= i2 < self.width && 0 <= j2 < j && 0 <= si2 < self.scale_factor && 0
                            <= sj2 < self.scale_factor ==> image_cell_painted(
                            *self,
                            region,
                            *old(frame),
                            *frame,
                            i2,
                            j2,
                            si2,
                            sj2,
                        ),
                    forall|i2: int, si2: int, sj2: int|
                        0 <= i2 < i && 0 <= si2 < self.scale_factor && 0 <= sj2
                            < self.scale_factor ==> image_cell_painted(
                            *self,
                            region,
                            *old(frame),
                            *frame,
                            i2,
                            j as int,
                            si2,
                            sj2,
                        ),
                    width == 0 ==> frame.data@ == old(frame).data@,
                    width > 0 ==> forall|b: int|
                        0 <= b < old(frame).data@.len() && !(region.x <= byte_pixel_x(width, b)
                            < region.x + self.width * self.scale_factor && region.y
                            <= byte_pixel_y(width, b) < region.y + self.height
                            * self.scale_factor) ==> frame.data@[b] == #[trigger] old(
                            frame,
                        ).data@[b],
                decreases self.width - i,
            {
                let d = match i.checked_add(match j.checked_mul(self.width) {
                    Some(v) => v,
                    None => usize::MAX,
                }) {
                    Some(v) => v,
                    None => usize::MAX,
                };
                let pixel: Option<Color> = if d < self.data.len() && d != usize::MAX {
                    Some(self.data[d])
                } else {
                    None
                };
                let mut sj: usize = 0;
                while sj < self.scale_factor
                    invariant
                        frame.width == old(frame).width,
                        frame.data@.len() == old(frame).data@.len(),
                        0 <= sj <= self.scale_factor,
                        0 <= i < self.width,
                        0 <= j < self.height,
                        pixel matches Some(c) ==> 0 <= i + j * self.width <= usize::MAX && i + j
                            * self.width < self.data@.len() && c == self.data@[i + j * self.width],
                        pixel is None ==> !(0 <= i + j * self.width <= usize::MAX && i + j
                            * self.width < self.data@.len()),
                        forall|i2: int, j2: int, si2: int, sj2: int|
                            0 <= i2 < self.width && 0 <= j2 < j && 0 <= si2 < self.scale_factor
                                && 0 <= sj2 < self.scale_factor ==> image_cell_painted(
                                *self,
                                region,
                                *old(frame),
                                *frame,
                                i2,
                                j2,
                                si2,
                                sj2,
                            ),
                        forall|i2: int, si2: int, sj2: int|
                            0 <= i2 < i && 0 <= si2 < self.scale_factor && 0 <= sj2
                                < self.scale_factor ==> image_cell_painted(
                                *self,
                                region,
                                *old(frame),
                                *frame,
                                i2,
                                j as int,
                                si2,
                                sj2,
                            ),
                        forall|si2: int, sj2: int|
                            0 <= si2 < self.scale_factor && 0 <= sj2 < sj ==> image_cell_painted(
                                *self,
                                region,
                                *old(frame),
                                *frame,
                                i as int,
                                j as int,
                                si2,
                                sj2,
                            ),
                        width == 0 ==> frame.data@ == old(frame).data@,
                        width > 0 ==> forall|b: int|
                            0 <= b < old(frame).data@.len() && !(region.x <= byte_pixel_x(width, b)
                                < region.x + self.width * self.scale_factor && region.y
                                <= byte_pixel_y(width, b) < region.y + self.height
                                * self.scale_factor) ==> frame.data@[b] == #[trigger] old(
                                frame,
                            ).data@[b],
                    decreases self.scale_factor - sj,
                {
                    let mut si: usize = 0;
                    while si < self.scale_factor
                        invariant
                            frame.width == old(frame).width,
                            frame.data@.len() == old(frame).data@.len(),
                            0 <= si <= self.scale_factor,
                            0 <= sj < self.scale_factor,
                            0 <= i < self.width,
                            0 <= j < self.height,
                            pixel matches Some(c) ==> 0 <= i + j * self.width <= usize::MAX && i
                                + j * self.width < self.data@.len() && c == self.data@[i + j
                                * self.width],
                            pixel is None ==> !(0 <= i + j * self.width <= usize::MAX && i + j
                                * self.width < self.data@.len()),
                            forall|i2: int, j2: int, si2: int, sj2: int|
                                0 <= i2 < self.width && 0 <= j2 < j && 0 <= si2
                                    < self.scale_factor && 0 <= sj2 < self.scale_factor
                                    ==> image_cell_painted(
                                    *self,
                                    region,
                                    *old(frame),
                                    *frame,
                                    i2,
                                    j2,
                                    si2,
                                    sj2,
                                ),
                            forall|i2: int, si2: int, sj2: int|
                                0 <= i2 < i && 0 <= si2 < self.scale_factor && 0 <= sj2
                                    < self.scale_factor ==> image_cell_painted(
                                    *self,
                                    region,
                                    *old(frame),
                                    *frame,
                                    i2,
                                    j as int,
                                    si2,
                                    sj2,
                                ),
                            forall|si2: int, sj2: int|
                                0 <= si2 < self.scale_factor && 0 <= sj2 < sj
                                    ==> image_cell_painted(
                                    *self,
                                    region,
                                    *old(frame),
                                    *frame,
                                    i as int,
                                    j as int,
                                    si2,
                                    sj2,
                                ),
                            forall|si2: int|
                                0 <= si2 < si ==> image_cell_painted(
                                    *self,
                                    region,
                                    *old(frame),
                                    *frame,
                                    i as int,
                                    j as int,
                                    si2,
                                    sj as int,
                                ),
                            width == 0 ==> frame.data@ == old(frame).data@,
                            width > 0 ==> forall|b: int|
                                0 <= b < old(frame).data@.len() && !(region.x <= byte_pixel_x(
                                    width,
                                    b,
                                ) < region.x + self.width * self.scale_factor && region.y
                                    <= byte_pixel_y(width, b) < region.y + self.height
                                    * self.scale_factor) ==> frame.data@[b] == #[trigger] old(
                                    frame,
                                ).data@[b],
                        decreases self.scale_factor - si,
                    {
                        proof {
                            assert((i as int) * (self.scale_factor as int) <= (u64::MAX as int) * (
                            u64::MAX as int) && (j as int) * (self.scale_factor as int) <= (
                            u64::MAX as int) * (u64::MAX as int)) by (nonlinear_arith)
                                requires
                                    0 <= i as int <= u64::MAX as int,
                                    0 <= j as int <= u64::MAX as int,
                                    0 <= self.scale_factor as int <= u64::MAX as int,
                            ;
                        }
                        let px128: u128 = region.x as u128 + (i as u128) * (self.scale_factor
                            as u128) + si as u128;
                        let py128: u128 = region.y as u128 + (j as u128) * (self.scale_factor
                            as u128) + sj as u128;
                        let ghost pre = *frame;
                        if let Some(c) = pixel {
                            if px128 <= usize::MAX as u128 && py128 <= usize::MAX as u128 {
                                frame.set_pixel(px128 as usize, py128 as usize, c);
                            } else {
                                proof {
                                    lemma_far_pixel_out_of_bounds(
                                        pre,
                                        region.x + i * self.scale_factor + si,
                                        region.y + j * self.scale_factor + sj,
                                    );
                                    assert(frame.data@ == spec_write_pixel(
                                        pre,
                                        region.x + i * self.scale_factor + si,
                                        region.y + j * self.scale_factor + sj,
                                        c,
                                    ));
                                }
                            }
                            proof {
                                lemma_image_draw_step(
                                    *self,
                                    region,
                                    *old(frame),
                                    pre,
                                    *frame,
                                    i as int,
                                    j as int,
                                    si as int,
                                    sj as int,
                                    c,
                                );
                            }
                        } else {
                            proof {
                                assert(image_cell_painted(
                                    *self,
                                    region,
                                    *old(frame),
                                    *frame,
                                    i as int,
                                    j as int,
                                    si as int,
                                    sj as int,
                                ));
                            }
                        }
                        si = si + 1;
                    }
                    sj = sj + 1;
                }
                i = i + 1;
            }
            j = j + 1;
        }
    }

    fn get_message(&self, state: &mut State, input: &Input, region: CalculatedLayout) -> (r:
        Option<Emitted<M>>) {
        None
    }

    fn min_width(&self) -> (r: u32) {
        match self.width.checked_mul(self.scale_factor) {
            Some(v) => {
                if v > u32::MAX as usize {
                    u32::MAX
                } else {
                    v as u32
                }
            },
            None => u32::MAX,
        }
    }

    fn min_height(&self, width: u32) -> (r: u32) {
        match self.height.checked_mul(self.scale_factor) {
            Some(v) => {
                if v > u32::MAX as usize {
                    u32::MAX
                } else {
                    v as u32
                }
            },
            None => u32::MAX,
        }
    }

    fn wrap(&self, width: u32) -> (r: Option<u32>) {
        None
    }

    fn get_initial_state(&self) -> (r: State) {
        State::Stateless
    }
}

} // verus!
