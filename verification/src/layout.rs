//! The constraint-based layout pipeline: five ordered passes transform a
//! tree of unresolved sizing policies into a tree of absolute pixel
//! rectangles. Shrink-to-fit needs children sized first, grow-to-fill needs
//! the parent size first, and text height needs the final width; the fixed
//! pass order resolves those circular dependencies.
pub mod length_types;
pub mod padding;
pub mod pipeline_types;

use crate::element::Element;
use crate::tree::Node;
use vstd::prelude::*;

pub use length_types::Length;
pub use length_types::ShrunkLength;
pub use padding::Padding;
pub use pipeline_types::CalculatedLayout;
pub use pipeline_types::Layout;
pub use pipeline_types::LayoutDirection;
pub use pipeline_types::GrownHeightLayout;
pub use pipeline_types::GrownWidthLayout;
pub use pipeline_types::ShrinkHeightLayout;
pub use pipeline_types::ShrinkWidthLayout;

verus! {

/// Clamps a pixel count into what a layout length can hold.
pub open spec fn clamp_u32(v: int) -> int {
    if v > u32::MAX {
        u32::MAX as int
    } else if v < 0 {
        0
    } else {
        v
    }
}

/// The summed shrink contributions of a child list.
pub open spec fn sum_contributions(ls: Seq<ShrunkLength>) -> int
    decreases ls.len(),
{
    if ls.len() == 0 {
        0
    } else {
        sum_contributions(ls.drop_last()) + ls.last().contribution()
    }
}

/// The largest shrink contribution of a child list (zero when empty).
pub open spec fn max_contribution(ls: Seq<ShrunkLength>) -> int
    decreases ls.len(),
{
    if ls.len() == 0 {
        0
    } else {
        let rest = max_contribution(ls.drop_last());
        if ls.last().contribution() > rest {
            ls.last().contribution()
        } else {
            rest
        }
    }
}

/// How many children take a share of the leftover space.
pub open spec fn count_growing(ls: Seq<ShrunkLength>) -> int
    decreases ls.len(),
{
    if ls.len() == 0 {
        0
    } else {
        count_growing(ls.drop_last()) + if ls.last().is_growing() {
            1int
        } else {
            0int
        }
    }
}

/// The summed sizes of the non-growing children.
pub open spec fn fixed_total(ls: Seq<ShrunkLength>) -> int
    decreases ls.len(),
{
    if ls.len() == 0 {
        0
    } else {
        fixed_total(ls.drop_last()) + match ls.last() {
            ShrunkLength::Fixed(l) => l as int,
            _ => 0,
        }
    }
}

/// The total inter-child spacing of `n` children: one gap fewer than
/// children.
pub open spec fn total_spacing(spacing: u32, n: int) -> int {
    if n > 1 {
        spacing * (n - 1)
    } else {
        0
    }
}

/// The flow-axis space left to divide among growing children once the
/// non-growing children, the padding and the spacing are paid for.
pub open spec fn spec_remaining(
    assigned: u32,
    ls: Seq<ShrunkLength>,
    pad_a: u32,
    pad_b: u32,
    spacing: u32,
) -> int {
    let used = fixed_total(ls) + pad_a + pad_b + total_spacing(spacing, ls.len() as int);
    if assigned > used {
        assigned - used
    } else {
        0
    }
}

/// Each growing child's even share of the leftover space (integer division;
/// up to count minus one pixels stay unallocated).
pub open spec fn spec_share(
    assigned: u32,
    ls: Seq<ShrunkLength>,
    pad_a: u32,
    pad_b: u32,
    spacing: u32,
) -> int {
    if count_growing(ls) > 0 {
        spec_remaining(assigned, ls, pad_a, pad_b, spacing) / count_growing(ls)
    } else {
        0
    }
}

/// The size the grow pass assigns to child `i`. On the flow axis, fixed
/// children keep their size, growing children get the even share, and a
/// grow-with-minimum child gets its minimum if the share is smaller. On the
/// cross axis every growing child receives the full available size inside
/// the padding.
pub open spec fn spec_grow_assign(
    ls: Seq<ShrunkLength>,
    i: int,
    flow: bool,
    assigned: u32,
    pad_a: u32,
    pad_b: u32,
    spacing: u32,
) -> int {
    if flow {
        let share = spec_share(assigned, ls, pad_a, pad_b, spacing);
        match ls[i] {
            ShrunkLength::Fixed(l) => l as int,
            ShrunkLength::Grow => share,
            ShrunkLength::GrowWithMin(m) => {
                if share > m {
                    share
                } else {
                    m as int
                }
            },
        }
    } else {
        let avail = if assigned > pad_a + pad_b {
            assigned - pad_a - pad_b
        } else {
            0
        };
        match ls[i] {
            ShrunkLength::Fixed(l) => l as int,
            ShrunkLength::Grow => avail,
            ShrunkLength::GrowWithMin(m) => {
                if avail > m {
                    avail
                } else {
                    m as int
                }
            },
        }
    }
}

/// What the shrink pass resolves a node's axis to, given its policy, the
/// children's already-shrunk sizes on that axis, and the node's own
/// intrinsic minimum: an explicit size stays; a growing node passes its
/// minimum on as a marker; a shrink-to-fit node becomes the children's sum
/// (plus padding and spacing) along the flow axis, or their maximum (plus
/// padding) across it.
pub open spec fn spec_shrunk(
    policy: Length,
    flow: bool,
    pad_a: u32,
    pad_b: u32,
    spacing: u32,
    own_min: int,
    child_ls: Seq<ShrunkLength>,
) -> ShrunkLength {
    match policy {
        Length::Grow => {
            if own_min == 0 {
                ShrunkLength::Grow
            } else {
                ShrunkLength::GrowWithMin(clamp_u32(own_min) as u32)
            }
        },
        Length::Fixed(l) => ShrunkLength::Fixed(l),
        Length::Shrink => {
            if flow {
                ShrunkLength::Fixed(
                    clamp_u32(
                        sum_contributions(child_ls) + pad_a + pad_b + total_spacing(
                            spacing,
                            child_ls.len() as int,
                        ),
                    ) as u32,
                )
            } else {
                ShrunkLength::Fixed(clamp_u32(max_contribution(child_ls) + pad_a + pad_b) as u32)
            }
        },
    }
}

/// The widths of a shrunk-width child list.
pub open spec fn shrunk_widths<M>(cs: Seq<Node<M, ShrinkWidthLayout>>) -> Seq<ShrunkLength> {
    cs.map_values(|c: Node<M, ShrinkWidthLayout>| c.layout.width)
}

/// The heights of a shrunk-height child list.
pub open spec fn shrunk_heights<M>(cs: Seq<Node<M, ShrinkHeightLayout>>) -> Seq<ShrunkLength> {
    cs.map_values(|c: Node<M, ShrinkHeightLayout>| c.layout.height)
}

/// The shrink-width pass resolved every shrink-to-fit width bottom-up and
/// left everything else untouched.
pub open spec fn shrink_width_ok<M: Copy>(
    pre: Node<M, Layout>,
    post: Node<M, ShrinkWidthLayout>,
) -> bool
    decreases pre,
{
    &&& post.element == pre.element
    &&& post.name == pre.name
    &&& post.layout.height == pre.layout.height
    &&& post.layout.padding == pre.layout.padding
    &&& post.layout.direction == pre.layout.direction
    &&& post.layout.spacing == pre.layout.spacing
    &&& post.children.len() == pre.children.len()
    &&& (forall|i: int|
        0 <= i < pre.children.len() ==> shrink_width_ok(
            #[trigger] pre.children[i],
            post.children[i],
        ))
    &&& post.layout.width == spec_shrunk(
        pre.layout.width,
        pre.layout.direction == LayoutDirection::Row,
        pre.layout.padding.left,
        pre.layout.padding.right,
        pre.layout.spacing,
        pre.element.spec_min_width(),
        shrunk_widths(post.children@),
    )
}

/// The grow-width pass distributed each node's assigned width among its
/// children and committed the assignment.
pub open spec fn grow_width_ok<M: Copy>(
    pre: Node<M, ShrinkWidthLayout>,
    assigned: u32,
    post: Node<M, GrownWidthLayout>,
) -> bool
    decreases pre,
{
    &&& post.element == pre.element
    &&& post.name == pre.name
    &&& post.layout.height == pre.layout.height
    &&& post.layout.padding == pre.layout.padding
    &&& post.layout.direction == pre.layout.direction
    &&& post.layout.spacing == pre.layout.spacing
    &&& post.layout.width == assigned
    &&& post.children.len() == pre.children.len()
    &&& (forall|i: int|
        0 <= i < pre.children.len() ==> grow_width_ok(
            #[trigger] pre.children[i],
            spec_grow_assign(
                shrunk_widths(pre.children@),
                i,
                pre.layout.direction == LayoutDirection::Row,
                assigned,
                pre.layout.padding.left,
                pre.layout.padding.right,
                pre.layout.spacing,
            ) as u32,
            post.children[i],
        ))
}

/// The height a node carries out of the wrap pass: an explicit height
/// stays; otherwise width-sensitive content pins the height it needs at the
/// committed width.
pub open spec fn spec_wrapped_height<M: Copy>(
    element: crate::element::Widget<M>,
    width: u32,
    height: Length,
) -> Length {
    if height is Fixed {
        height
    } else {
        match element.spec_wrap(width) {
            Some(h) => Length::Fixed(h),
            None => height,
        }
    }
}

/// The wrap pass re-measured width-sensitive content, touching nothing but
/// heights.
pub open spec fn wrap_ok<M: Copy>(
    pre: Node<M, GrownWidthLayout>,
    post: Node<M, GrownWidthLayout>,
) -> bool
    decreases pre,
{
    &&& post.element == pre.element
    &&& post.name == pre.name
    &&& post.layout.width == pre.layout.width
    &&& post.layout.padding == pre.layout.padding
    &&& post.layout.direction == pre.layout.direction
    &&& post.layout.spacing == pre.layout.spacing
    &&& post.layout.height == spec_wrapped_height(pre.element, pre.layout.width, pre.layout.height)
    &&& post.children.len() == pre.children.len()
    &&& (forall|i: int|
        0 <= i < pre.children.len() ==> wrap_ok(#[trigger] pre.children[i], post.children[i]))
}

/// The shrink-height pass: the mirror of the shrink-width pass along the
/// orthogonal axis, with each node's intrinsic minimum measured at its
/// committed width.
pub open spec fn shrink_height_ok<M: Copy>(
    pre: Node<M, GrownWidthLayout>,
    post: Node<M, ShrinkHeightLayout>,
) -> bool
    decreases pre,
{
    &&& post.element == pre.element
    &&& post.name == pre.name
    &&& post.layout.width == pre.layout.width
    &&& post.layout.padding == pre.layout.padding
    &&& post.layout.direction == pre.layout.direction
    &&& post.layout.spacing == pre.layout.spacing
    &&& post.children.len() == pre.children.len()
    &&& (forall|i: int|
        0 <= i < pre.children.len() ==> shrink_height_ok(
            #[trigger] pre.children[i],
            post.children[i],
        ))
    &&& post.layout.height == spec_shrunk(
        pre.layout.height,
        pre.layout.direction == LayoutDirection::Column,
        pre.layout.padding.top,
        pre.layout.padding.bottom,
        pre.layout.spacing,
        pre.element.spec_min_height(pre.layout.width),
        shrunk_heights(post.children@),
    )
}

/// The grow-height pass: the mirror of the grow-width pass along the
/// orthogonal axis.
pub open spec fn grow_height_ok<M: Copy>(
    pre: Node<M, ShrinkHeightLayout>,
    assigned: u32,
    post: Node<M, GrownHeightLayout>,
) -> bool
    decreases pre,
{
    &&& post.element == pre.element
    &&& post.name == pre.name
    &&& post.layout.width == pre.layout.width
    &&& post.layout.padding == pre.layout.padding
    &&& post.layout.direction == pre.layout.direction
    &&& post.layout.spacing == pre.layout.spacing
    &&& post.layout.height == assigned
    &&& post.children.len() == pre.children.len()
    &&& (forall|i: int|
        0 <= i < pre.children.len() ==> grow_height_ok(
            #[trigger] pre.children[i],
            spec_grow_assign(
                shrunk_heights(pre.children@),
                i,
                pre.layout.direction == LayoutDirection::Column,
                assigned,
                pre.layout.padding.top,
                pre.layout.padding.bottom,
                pre.layout.spacing,
            ) as u32,
            post.children[i],
        ))
}

/// Pixel addition clamped at the edge of the coordinate space.
pub open spec fn sat_u32(v: int) -> int {
    if v > u32::MAX {
        u32::MAX as int
    } else {
        v
    }
}

/// The origin of child `i`: the parent's content origin for the first child
/// (and for every child of a stack), advanced along the flow axis by each
/// prior sibling's extent plus the spacing.
pub open spec fn spec_child_origin<M: Copy>(
    dir: LayoutDirection,
    spacing: u32,
    children: Seq<Node<M, GrownHeightLayout>>,
    first: (int, int),
    i: int,
) -> (int, int)
    decreases i,
{
    if i <= 0 {
        first
    } else {
        let prev = spec_child_origin(dir, spacing, children, first, i - 1);
        match dir {
            LayoutDirection::Row => (
                sat_u32(prev.0 + children[i - 1].layout.width + spacing),
                prev.1,
            ),
            LayoutDirection::Column => (
                prev.0,
                sat_u32(prev.1 + children[i - 1].layout.height + spacing),
            ),
            LayoutDirection::Stack => prev,
        }
    }
}

/// The accumulated origin of child `i`, as coordinates.
pub open spec fn spec_child_origin_u32<M: Copy>(
    dir: LayoutDirection,
    spacing: u32,
    children: Seq<Node<M, GrownHeightLayout>>,
    first: (int, int),
    i: int,
) -> (u32, u32) {
    let o = spec_child_origin(dir, spacing, children, first, i);
    (o.0 as u32, o.1 as u32)
}

/// The position pass assigned every node its absolute rectangle: this
/// node's origin and its already-resolved extents, each child placed at its
/// accumulated origin.
pub open spec fn position_ok<M: Copy>(
    pre: Node<M, GrownHeightLayout>,
    origin: (u32, u32),
    post: Node<M, CalculatedLayout>,
) -> bool
    decreases pre,
{
    let first = (
        sat_u32(origin.0 + pre.layout.padding.left),
        sat_u32(origin.1 + pre.layout.padding.top),
    );
    &&& post.element == pre.element
    &&& post.name == pre.name
    &&& post.layout == (CalculatedLayout {
        x: origin.0,
        y: origin.1,
        w: pre.layout.width,
        h: pre.layout.height,
    })
    &&& post.children.len() == pre.children.len()
    &&& (forall|i: int|
        0 <= i < pre.children.len() ==> position_ok(
            #[trigger] pre.children[i],
            spec_child_origin_u32(
                pre.layout.direction,
                pre.layout.spacing,
                pre.children@,
                first,
                i,
            ),
            post.children[i],
        ))
}

/// The five passes in their fixed order, from the authored tree through
/// every intermediate stage to the positioned tree.
pub open spec fn pipeline_stages_ok<M: Copy>(
    t0: Node<M, Layout>,
    t1: Node<M, ShrinkWidthLayout>,
    t2: Node<M, GrownWidthLayout>,
    t3: Node<M, GrownWidthLayout>,
    t4: Node<M, ShrinkHeightLayout>,
    t5: Node<M, GrownHeightLayout>,
    post: Node<M, CalculatedLayout>,
) -> bool {
    &&& shrink_width_ok(t0, t1)
    &&& grow_width_ok(t1, t0.layout.width->Fixed_0, t2)
    &&& wrap_ok(t2, t3)
    &&& shrink_height_ok(t3, t4)
    &&& grow_height_ok(t4, t0.layout.height->Fixed_0, t5)
    &&& position_ok(t5, (0, 0), post)
}

/// The resolved tree is what the five passes produce from the authored
/// tree, for some chain of intermediate stages.
pub open spec fn resolved_ok<M: Copy>(
    pre: Node<M, Layout>,
    post: Node<M, CalculatedLayout>,
) -> bool {
    exists|t1: Node<M, ShrinkWidthLayout>, t2: Node<M, GrownWidthLayout>, t3: Node<
        M,
        GrownWidthLayout,
    >, t4: Node<M, ShrinkHeightLayout>, t5: Node<M, GrownHeightLayout>|
        #[trigger] pipeline_stages_ok(pre, t1, t2, t3, t4, t5, post)
}

/// Clamps a pixel total into an accumulator's range.
pub open spec fn clamp_u64(v: int) -> int {
    if v > u64::MAX {
        u64::MAX as int
    } else if v < 0 {
        0
    } else {
        v
    }
}

/// One child's shrink contribution.
fn contribution_of(l: ShrunkLength) -> (r: u32)
    ensures
        r == l.contribution(),
{
    match l {
        ShrunkLength::Grow => 0,
        ShrunkLength::GrowWithMin(m) => m,
        ShrunkLength::Fixed(v) => v,
    }
}

/// The clamped inter-child spacing total.
fn total_spacing_exec(spacing: u32, n: usize) -> (r: u64)
    ensures
        r as int == clamp_u64(total_spacing(spacing, n as int)),
{
    if n > 1 {
        match (spacing as u64).checked_mul((n - 1) as u64) {
            Some(v) => v,
            None => u64::MAX,
        }
    } else {
        0
    }
}

/// A shrink-to-fit size along the flow axis: the children's contributions
/// plus padding plus spacing, clamped.
fn total_flow_shrink(ls: &Vec<ShrunkLength>, pad_a: u32, pad_b: u32, spacing: u32) -> (r: u32)
    ensures
        r as int == clamp_u32(
            sum_contributions(ls@) + pad_a + pad_b + total_spacing(spacing, ls@.len() as int),
        ),
{
    let mut sum: u64 = 0;
    let mut i: usize = 0;
    while i < ls.len()
        invariant
            0 <= i <= ls@.len(),
            sum as int == clamp_u64(sum_contributions(ls@.take(i as int))),
        decreases ls@.len() - i,
    {
        proof {
            assert(ls@.take(i + 1).drop_last() =~= ls@.take(i as int));
            assert(ls@.take(i + 1).last() == ls@[i as int]);
            lemma_sum_contributions_nonneg(ls@.take(i as int));
        }
        sum = sum.saturating_add(contribution_of(ls[i]) as u64);
        i = i + 1;
    }
    proof {
        assert(ls@.take(ls@.len() as int) =~= ls@);
        lemma_sum_contributions_nonneg(ls@);
    }
    let total = sum.saturating_add(pad_a as u64).saturating_add(pad_b as u64).saturating_add(
        total_spacing_exec(spacing, ls.len()),
    );
    if total > u32::MAX as u64 {
        u32::MAX
    } else {
        total as u32
    }
}

/// Contributions are never negative.
pub proof fn lemma_sum_contributions_nonneg(ls: Seq<ShrunkLength>)
    ensures
        sum_contributions(ls) >= 0,
        max_contribution(ls) >= 0,
        0 <= count_growing(ls) <= ls.len(),
        fixed_total(ls) >= 0,
    decreases ls.len(),
{
    if ls.len() > 0 {
        lemma_sum_contributions_nonneg(ls.drop_last());
    }
}

/// A shrink-to-fit size across the flow axis: the largest child plus the
/// padding, clamped.
fn total_cross_shrink(ls: &Vec<ShrunkLength>, pad_a: u32, pad_b: u32) -> (r: u32)
    ensures
        r as int == clamp_u32(max_contribution(ls@) + pad_a + pad_b),
{
    let mut max: u32 = 0;
    let mut i: usize = 0;
    while i < ls.len()
        invariant
            0 <= i <= ls@.len(),
            max as int == max_contribution(ls@.take(i as int)),
        decreases ls@.len() - i,
    {
        proof {
            assert(ls@.take(i + 1).drop_last() =~= ls@.take(i as int));
            assert(ls@.take(i + 1).last() == ls@[i as int]);
        }
        let c = contribution_of(ls[i]);
        if c > max {
            max = c;
        }
        i = i + 1;
    }
    proof {
        assert(ls@.take(ls@.len() as int) =~= ls@);
    }
    let total = (max as u64) + (pad_a as u64) + (pad_b as u64);
    if total > u32::MAX as u64 {
        u32::MAX
    } else {
        total as u32
    }
}

/// The number of growing children.
fn count_growing_exec(ls: &Vec<ShrunkLength>) -> (r: usize)
    ensures
        r == count_growing(ls@),
{
    let mut count: usize = 0;
    let mut i: usize = 0;
    while i < ls.len()
        invariant
            0 <= i <= ls@.len(),
            count == count_growing(ls@.take(i as int)),
            count <= i,
        decreases ls@.len() - i,
    {
        proof {
            assert(ls@.take(i + 1).drop_last() =~= ls@.take(i as int));
            assert(ls@.take(i + 1).last() == ls@[i as int]);
            lemma_sum_contributions_nonneg(ls@.take(i as int));
        }
        let growing = match ls[i] {
            ShrunkLength::Grow => true,
            ShrunkLength::GrowWithMin(_) => true,
            ShrunkLength::Fixed(_) => false,
        };
        if growing {
            count = count + 1;
        }
        i = i + 1;
    }
    proof {
        assert(ls@.take(ls@.len() as int) =~= ls@);
    }
    count
}

/// The flow-axis space left over for growing children.
fn remaining_exec(
    assigned: u32,
    ls: &Vec<ShrunkLength>,
    pad_a: u32,
    pad_b: u32,
    spacing: u32,
) -> (r: u32)
    ensures
        r as int == spec_remaining(assigned, ls@, pad_a, pad_b, spacing),
{
    let mut sum: u64 = 0;
    let mut i: usize = 0;
    while i < ls.len()
        invariant
            0 <= i <= ls@.len(),
            sum as int == clamp_u64(fixed_total(ls@.take(i as int))),
        decreases ls@.len() - i,
    {
        proof {
            assert(ls@.take(i + 1).drop_last() =~= ls@.take(i as int));
            assert(ls@.take(i + 1).last() == ls@[i as int]);
            lemma_sum_contributions_nonneg(ls@.take(i as int));
        }
        let c = match ls[i] {
            ShrunkLength::Fixed(v) => v,
            _ => 0,
        };
        sum = sum.saturating_add(c as u64);
        i = i + 1;
    }
    proof {
        assert(ls@.take(ls@.len() as int) =~= ls@);
        lemma_sum_contributions_nonneg(ls@);
    }
    let used = sum.saturating_add(pad_a as u64).saturating_add(pad_b as u64).saturating_add(
        total_spacing_exec(spacing, ls.len()),
    );
    if (assigned as u64) > used {
        assigned - (used as u32)
    } else {
        0
    }
}

/// A growing child's even share of the leftover space.
fn share_exec(assigned: u32, ls: &Vec<ShrunkLength>, pad_a: u32, pad_b: u32, spacing: u32) -> (r:
    u32)
    ensures
        r as int == spec_share(assigned, ls@, pad_a, pad_b, spacing),
{
    let count = count_growing_exec(ls);
    if count == 0 {
        0
    } else {
        let remaining = remaining_exec(assigned, ls, pad_a, pad_b, spacing);
        ((remaining as u64) / (count as u64)) as u32
    }
}

/// The size the grow pass gives child `i` of a node with the given flow
/// orientation, assigned size, padding and spacing.
fn grow_assign_exec(
    ls: &Vec<ShrunkLength>,
    i: usize,
    flow: bool,
    assigned: u32,
    pad_a: u32,
    pad_b: u32,
    spacing: u32,
) -> (r: u32)
    requires
        i < ls@.len(),
    ensures
        r as int == spec_grow_assign(ls@, i as int, flow, assigned, pad_a, pad_b, spacing),
{
    if flow {
        match ls[i] {
            ShrunkLength::Fixed(l) => l,
            ShrunkLength::Grow => share_exec(assigned, ls, pad_a, pad_b, spacing),
            ShrunkLength::GrowWithMin(m) => {
                let share = share_exec(assigned, ls, pad_a, pad_b, spacing);
                if share > m {
                    share
                } else {
                    m
                }
            },
        }
    } else {
        let avail: u32 = if (assigned as u64) > (pad_a as u64) + (pad_b as u64) {
            (assigned as u64 - pad_a as u64 - pad_b as u64) as u32
        } else {
            0
        };
        match ls[i] {
            ShrunkLength::Fixed(l) => l,
            ShrunkLength::Grow => avail,
            ShrunkLength::GrowWithMin(m) => {
                if avail > m {
                    avail
                } else {
                    m
                }
            },
        }
    }
}

impl<M: Copy> Node<M, Layout> {
    /// The first pass, bottom-up: resolve every shrink-to-fit width from the
    /// children's widths; growing nodes carry their intrinsic minimum
    /// forward as a marker.
    #[verifier::loop_isolation(false)]
    pub fn shrink_width_pass(self) -> (r: Node<M, ShrinkWidthLayout>)
        ensures
            shrink_width_ok(self, r),
        decreases self,
    {
        let ghost orig = self;
        let Node { mut children, element, layout, name } = self;
        let mut new_children: Vec<Node<M, ShrinkWidthLayout>> = Vec::new();
        let mut widths: Vec<ShrunkLength> = Vec::new();
        while children.len() > 0
            invariant
                new_children@.len() + children@.len() == orig.children@.len(),
                forall|j: int|
                    0 <= j < children@.len() ==> children@[j] == orig.children@[new_children@.len()
                        + j],
                forall|j: int|
                    0 <= j < new_children@.len() ==> shrink_width_ok(
                        #[trigger] orig.children@[j],
                        new_children@[j],
                    ),
                widths@ == shrunk_widths(new_children@),
            decreases children@.len(),
        {
            let c = children.remove(0);
            proof {
                let k = new_children@.len() as int;
                assert(c == orig.children@[k]);
                assert(decreases_to!(orig => orig.children));
                assert(decreases_to!(orig.children => orig.children[k]));
                assert(decreases_to!(orig => c));
            }
            let nc = c.shrink_width_pass();
            widths.push(nc.layout.width);
            new_children.push(nc);
            proof {
                assert(widths@ =~= shrunk_widths(new_children@));
            }
        }
        let new_width = match layout.width {
            Length::Grow => {
                let mw = element.min_width();
                if mw == 0 {
                    ShrunkLength::Grow
                } else {
                    ShrunkLength::GrowWithMin(mw)
                }
            },
            Length::Fixed(l) => ShrunkLength::Fixed(l),
            Length::Shrink => {
                match layout.direction {
                    LayoutDirection::Row => ShrunkLength::Fixed(
                        total_flow_shrink(
                            &widths,
                            layout.padding.left,
                            layout.padding.right,
                            layout.spacing,
                        ),
                    ),
                    LayoutDirection::Column | LayoutDirection::Stack => ShrunkLength::Fixed(
                        total_cross_shrink(&widths, layout.padding.left, layout.padding.right),
                    ),
                }
            },
        };
        Node {
            layout: ShrinkWidthLayout {
                width: new_width,
                height: layout.height,
                padding: layout.padding,
                direction: layout.direction,
                spacing: layout.spacing,
            },
            children: new_children,
            element,
            name,
        }
    }
}


/// The flow-axis sizes the grow pass hands to the first `k` children, summed.
pub open spec fn grow_assign_total(
    ls: Seq<ShrunkLength>,
    assigned: u32,
    pad_a: u32,
    pad_b: u32,
    spacing: u32,
    k: int,
) -> int
    decreases k,
{
    if k <= 0 {
        0
    } else {
        grow_assign_total(ls, assigned, pad_a, pad_b, spacing, k - 1) + spec_grow_assign(
            ls,
            k - 1,
            true,
            assigned,
            pad_a,
            pad_b,
            spacing,
        )
    }
}

/// In a list of grow-only children nothing is fixed and everything grows.
proof fn lemma_all_grow_counts(ls: Seq<ShrunkLength>)
    requires
        forall|i: int| 0 <= i < ls.len() ==> ls[i] == ShrunkLength::Grow,
    ensures
        fixed_total(ls) == 0,
        count_growing(ls) == ls.len(),
    decreases ls.len(),
{
    if ls.len() > 0 {
        lemma_all_grow_counts(ls.drop_last());
    }
}

/// Each of the first `k` grow-only children receives exactly the share, so
/// the total is `k` shares.
proof fn lemma_all_grow_total(
    ls: Seq<ShrunkLength>,
    assigned: u32,
    pad_a: u32,
    pad_b: u32,
    spacing: u32,
    k: int,
)
    requires
        forall|i: int| 0 <= i < ls.len() ==> ls[i] == ShrunkLength::Grow,
        0 <= k <= ls.len(),
    ensures
        grow_assign_total(ls, assigned, pad_a, pad_b, spacing, k) == k * spec_share(
            assigned,
            ls,
            pad_a,
            pad_b,
            spacing,
        ),
    decreases k,
{
    let share = spec_share(assigned, ls, pad_a, pad_b, spacing);
    if k > 0 {
        lemma_all_grow_total(ls, assigned, pad_a, pad_b, spacing, k - 1);
        assert(spec_grow_assign(ls, k - 1, true, assigned, pad_a, pad_b, spacing) == share);
        assert((k - 1) * share + share == k * share) by (nonlinear_arith);
    } else {
        assert(0int * share == 0) by (nonlinear_arith);
    }
}

/// For a row of grow-only children, the grow pass hands out exactly the
/// assigned width minus padding and spacing, up to the integer-division
/// slack: the summed child widths undershoot by less than one pixel per
/// child and never overshoot.
pub proof fn lemma_grow_row_even_distribution(
    ls: Seq<ShrunkLength>,
    assigned: u32,
    pad_a: u32,
    pad_b: u32,
    spacing: u32,
)
    requires
        ls.len() > 0,
        forall|i: int| 0 <= i < ls.len() ==> ls[i] == ShrunkLength::Grow,
    ensures
        ({
            let n = ls.len() as int;
            let remaining = spec_remaining(assigned, ls, pad_a, pad_b, spacing);
            let total = grow_assign_total(ls, assigned, pad_a, pad_b, spacing, n);
            remaining - (n - 1) <= total <= remaining
        }),
{
    let n = ls.len() as int;
    let remaining = spec_remaining(assigned, ls, pad_a, pad_b, spacing);
    lemma_all_grow_counts(ls);
    lemma_all_grow_total(ls, assigned, pad_a, pad_b, spacing, n);
    vstd::arithmetic::div_mod::lemma_fundamental_div_mod(remaining, n);
    vstd::arithmetic::div_mod::lemma_mod_bound(remaining, n);
}

/// A shrink-to-fit node is never narrower than any one child's shrink
/// contribution: the sum along the flow axis and the maximum across it both
/// dominate every child, so in particular a grow child's content minimum is
/// honored without any panic.
pub proof fn lemma_shrink_holds_child_min(
    ls: Seq<ShrunkLength>,
    flow: bool,
    pad_a: u32,
    pad_b: u32,
    spacing: u32,
    own_min: int,
    i: int,
)
    requires
        0 <= i < ls.len(),
        forall|j: int| 0 <= j < ls.len() ==> (#[trigger] ls[j]).contribution() <= u32::MAX,
    ensures
        spec_shrunk(Length::Shrink, flow, pad_a, pad_b, spacing, own_min, ls) matches
            ShrunkLength::Fixed(w) && w >= ls[i].contribution(),
{
    lemma_contribution_dominated(ls, i);
    lemma_sum_contributions_nonneg(ls);
}

/// The grow pass never hands a grow-with-minimum child less than its
/// minimum, on either axis: a content minimum carried out of the shrink
/// pass survives the distribution.
pub proof fn lemma_grow_holds_child_min(
    ls: Seq<ShrunkLength>,
    i: int,
    flow: bool,
    assigned: u32,
    pad_a: u32,
    pad_b: u32,
    spacing: u32,
)
    requires
        0 <= i < ls.len(),
        ls[i] is GrowWithMin,
    ensures
        spec_grow_assign(ls, i, flow, assigned, pad_a, pad_b, spacing) >= ls[i]->GrowWithMin_0,
{
}

/// Both aggregate contribution measures dominate each element.
proof fn lemma_contribution_dominated(ls: Seq<ShrunkLength>, i: int)
    requires
        0 <= i < ls.len(),
    ensures
        sum_contributions(ls) >= ls[i].contribution(),
        max_contribution(ls) >= ls[i].contribution(),
    decreases ls.len(),
{
    lemma_sum_contributions_nonneg(ls.drop_last());
    if i < ls.len() - 1 {
        lemma_contribution_dominated(ls.drop_last(), i);
    }
}

/// The node a path of child indices leads to, stepping into the `path[0]`-th
/// child first.
pub open spec fn node_at<M, S>(n: Node<M, S>, path: Seq<int>) -> Option<Node<M, S>>
    decreases path.len(),
{
    if path.len() == 0 {
        Some(n)
    } else if 0 <= path[0] < n.children.len() {
        node_at(n.children[path[0]], path.skip(1))
    } else {
        None
    }
}

/// Once widths are committed, the height passes and the position pass carry
/// every node's width through unchanged, at every depth.
proof fn lemma_width_constant_tail<M: Copy>(
    t2: Node<M, GrownWidthLayout>,
    t3: Node<M, GrownWidthLayout>,
    t4: Node<M, ShrinkHeightLayout>,
    t5: Node<M, GrownHeightLayout>,
    post: Node<M, CalculatedLayout>,
    ah: u32,
    origin: (u32, u32),
    path: Seq<int>,
)
    requires
        wrap_ok(t2, t3),
        shrink_height_ok(t3, t4),
        grow_height_ok(t4, ah, t5),
        position_ok(t5, origin, post),
        node_at(t2, path) is Some,
    ensures
        node_at(post, path) matches Some(p) && p.layout.w == node_at(
            t2,
            path,
        )->0.layout.width,
    decreases path.len(),
{
    if path.len() == 0 {
    } else {
        let i = path[0];
        assert(wrap_ok(t2.children[i], t3.children[i]));
        assert(shrink_height_ok(t3.children[i], t4.children[i]));
        let child_ah = spec_grow_assign(
            shrunk_heights(t4.children@),
            i,
            t4.layout.direction == LayoutDirection::Column,
            ah,
            t4.layout.padding.top,
            t4.layout.padding.bottom,
            t4.layout.spacing,
        ) as u32;
        assert(grow_height_ok(t4.children[i], child_ah, t5.children[i]));
        let first = (
            sat_u32(origin.0 + t5.layout.padding.left),
            sat_u32(origin.1 + t5.layout.padding.top),
        );
        let child_origin = spec_child_origin_u32(
            t5.layout.direction,
            t5.layout.spacing,
            t5.children@,
            first,
            i,
        );
        assert(position_ok(t5.children[i], child_origin, post.children[i]));
        lemma_width_constant_tail(
            t2.children[i],
            t3.children[i],
            t4.children[i],
            t5.children[i],
            post.children[i],
            child_ah,
            child_origin,
            path.skip(1),
        );
    }
}

/// The width passes pin a fixed-width node to exactly its stated width, at
/// every depth below the root.
proof fn lemma_fixed_width_head<M: Copy>(
    t0: Node<M, Layout>,
    t1: Node<M, ShrinkWidthLayout>,
    t2: Node<M, GrownWidthLayout>,
    aw: u32,
    path: Seq<int>,
)
    requires
        shrink_width_ok(t0, t1),
        grow_width_ok(t1, aw, t2),
        path.len() >= 1,
        node_at(t0, path) matches Some(nd) && nd.layout.width is Fixed,
    ensures
        node_at(t2, path) matches Some(n2) && n2.layout.width == node_at(
            t0,
            path,
        )->0.layout.width->Fixed_0,
        node_at(t1, path) is Some,
    decreases path.len(),
{
    let i = path[0];
    assert(shrink_width_ok(t0.children[i], t1.children[i]));
    let child_aw = spec_grow_assign(
        shrunk_widths(t1.children@),
        i,
        t1.layout.direction == LayoutDirection::Row,
        aw,
        t1.layout.padding.left,
        t1.layout.padding.right,
        t1.layout.spacing,
    ) as u32;
    assert(grow_width_ok(t1.children[i], child_aw, t2.children[i]));
    if path.len() == 1 {
        assert(node_at(t0.children[i], path.skip(1)) == Some(t0.children[i]));
        assert(node_at(t1.children[i], path.skip(1)) == Some(t1.children[i]));
        assert(node_at(t2.children[i], path.skip(1)) == Some(t2.children[i]));
        assert(node_at(t0, path) == Some(t0.children[i]));
        assert(node_at(t1, path) == Some(t1.children[i]));
        assert(node_at(t2, path) == Some(t2.children[i]));
        let k = node_at(t0, path)->0.layout.width->Fixed_0;
        assert(t1.children[i].layout.width == ShrunkLength::Fixed(k));
        assert(shrunk_widths(t1.children@)[i] == t1.children[i].layout.width);
        assert(child_aw == k);
    } else {
        lemma_fixed_width_head(t0.children[i], t1.children[i], t2.children[i], child_aw, path.skip(1));
        lemma_shape_head(t0.children[i], t1.children[i], t2.children[i], child_aw, path.skip(1));
    }
}

/// The width passes keep the tree's shape: whatever path exists before them
/// exists after them.
proof fn lemma_shape_head<M: Copy>(
    t0: Node<M, Layout>,
    t1: Node<M, ShrinkWidthLayout>,
    t2: Node<M, GrownWidthLayout>,
    aw: u32,
    path: Seq<int>,
)
    requires
        shrink_width_ok(t0, t1),
        grow_width_ok(t1, aw, t2),
        node_at(t0, path) is Some,
    ensures
        node_at(t1, path) is Some,
        node_at(t2, path) is Some,
    decreases path.len(),
{
    if path.len() > 0 {
        let i = path[0];
        assert(shrink_width_ok(t0.children[i], t1.children[i]));
        assert(grow_width_ok(
            t1.children[i],
            spec_grow_assign(
                shrunk_widths(t1.children@),
                i,
                t1.layout.direction == LayoutDirection::Row,
                aw,
                t1.layout.padding.left,
                t1.layout.padding.right,
                t1.layout.spacing,
            ) as u32,
            t2.children[i],
        ));
        lemma_shape_head(
            t0.children[i],
            t1.children[i],
            t2.children[i],
            spec_grow_assign(
                shrunk_widths(t1.children@),
                i,
                t1.layout.direction == LayoutDirection::Row,
                aw,
                t1.layout.padding.left,
                t1.layout.padding.right,
                t1.layout.spacing,
            ) as u32,
            path.skip(1),
        );
    }
}

/// A fixed-width node resolves to a rectangle of exactly its stated width,
/// at any depth and whatever every ancestor's policy: the shrink pass keeps
/// it fixed, the grow pass assigns it exactly, and the remaining passes
/// leave widths alone.
pub proof fn lemma_fixed_width_resolves<M: Copy>(
    t0: Node<M, Layout>,
    t1: Node<M, ShrinkWidthLayout>,
    t2: Node<M, GrownWidthLayout>,
    t3: Node<M, GrownWidthLayout>,
    t4: Node<M, ShrinkHeightLayout>,
    t5: Node<M, GrownHeightLayout>,
    post: Node<M, CalculatedLayout>,
    path: Seq<int>,
)
    requires
        pipeline_stages_ok(t0, t1, t2, t3, t4, t5, post),
        path.len() >= 1,
        node_at(t0, path) matches Some(nd) && nd.layout.width is Fixed,
    ensures
        node_at(post, path) matches Some(p) && p.layout.w == node_at(
            t0,
            path,
        )->0.layout.width->Fixed_0,
{
    lemma_fixed_width_head(t0, t1, t2, t0.layout.width->Fixed_0, path);
    lemma_shape_head(t0, t1, t2, t0.layout.width->Fixed_0, path);
    lemma_width_constant_tail(
        t2,
        t3,
        t4,
        t5,
        post,
        t0.layout.height->Fixed_0,
        (0, 0),
        path,
    );
}

impl<M: Copy> Node<M, Layout> {
    /// Runs the whole pipeline: shrink and grow widths, re-measure
    /// width-sensitive content, shrink and grow heights, then position. The
    /// root must be fixed on both axes, since there is no parent to derive
    /// growing or shrinking bounds from.
    pub fn calculate_layout(self) -> (r: Node<M, CalculatedLayout>)
        requires
            self.layout.width is Fixed,
            self.layout.height is Fixed,
        ensures
            resolved_ok(self, r),
    {
        let root_w = match self.layout.width {
            Length::Fixed(w) => w,
            _ => vstd::pervasive::unreached(),
        };
        let root_h = match self.layout.height {
            Length::Fixed(h) => h,
            _ => vstd::pervasive::unreached(),
        };
        let ghost t0 = self;
        let s1 = self.shrink_width_pass();
        let ghost g1 = s1;
        let s2 = s1.grow_width_pass(root_w);
        let ghost g2 = s2;
        let s3 = s2.wrap();
        let ghost g3 = s3;
        let s4 = s3.shrink_height_pass();
        let ghost g4 = s4;
        let s5 = s4.grow_height_pass(root_h);
        let ghost g5 = s5;
        let out = s5.position_pass((0, 0));
        proof {
            assert(pipeline_stages_ok(t0, g1, g2, g3, g4, g5, out));
        }
        out
    }
}

impl<M: Copy> Node<M, ShrinkWidthLayout> {
    /// The second pass, top-down: distribute each node's assigned width
    /// among its children along the flow axis and commit every width.
    #[verifier::loop_isolation(false)]
    pub fn grow_width_pass(self, assigned_width: u32) -> (r: Node<M, GrownWidthLayout>)
        ensures
            grow_width_ok(self, assigned_width, r),
        decreases self,
    {
        let ghost orig = self;
        let Node { mut children, element, layout, name } = self;
        let mut widths: Vec<ShrunkLength> = Vec::new();
        let mut i: usize = 0;
        while i < children.len()
            invariant
                0 <= i <= children@.len(),
                children@ == orig.children@,
                widths@ == shrunk_widths(orig.children@).take(i as int),
            decreases children@.len() - i,
        {
            widths.push(children[i].layout.width);
            proof {
                assert(widths@ =~= shrunk_widths(orig.children@).take(i + 1));
            }
            i = i + 1;
        }
        proof {
            assert(widths@ =~= shrunk_widths(orig.children@));
        }
        let flow = match layout.direction {
            LayoutDirection::Row => true,
            LayoutDirection::Column | LayoutDirection::Stack => false,
        };
        let mut new_children: Vec<Node<M, GrownWidthLayout>> = Vec::new();
        while children.len() > 0
            invariant
                widths@ == shrunk_widths(orig.children@),
                new_children@.len() + children@.len() == orig.children@.len(),
                forall|j: int|
                    0 <= j < children@.len() ==> children@[j] == orig.children@[new_children@.len()
                        + j],
                forall|j: int|
                    0 <= j < new_children@.len() ==> grow_width_ok(
                        #[trigger] orig.children@[j],
                        spec_grow_assign(
                            shrunk_widths(orig.children@),
                            j,
                            orig.layout.direction == LayoutDirection::Row,
                            assigned_width,
                            orig.layout.padding.left,
                            orig.layout.padding.right,
                            orig.layout.spacing,
                        ) as u32,
                        new_children@[j],
                    ),
            decreases children@.len(),
        {
            let k = new_children.len();
            let w = grow_assign_exec(
                &widths,
                k,
                flow,
                assigned_width,
                layout.padding.left,
                layout.padding.right,
                layout.spacing,
            );
            let c = children.remove(0);
            proof {
                assert(c == orig.children@[k as int]);
                assert(decreases_to!(orig => orig.children));
                assert(decreases_to!(orig.children => orig.children[k as int]));
                assert(decreases_to!(orig => c));
            }
            let nc = c.grow_width_pass(w);
            new_children.push(nc);
        }
        Node {
            layout: GrownWidthLayout {
                width: assigned_width,
                height: layout.height,
                padding: layout.padding,
                direction: layout.direction,
                spacing: layout.spacing,
            },
            children: new_children,
            element,
            name,
        }
    }
}

impl<M: Copy> Node<M, GrownWidthLayout> {
    /// The third pass: with every width committed, ask width-sensitive
    /// content for the height it needs, and pin that height before the
    /// height passes run. Explicit heights stay as authored.
    #[verifier::loop_isolation(false)]
    pub fn wrap(self) -> (r: Node<M, GrownWidthLayout>)
        ensures
            wrap_ok(self, r),
        decreases self,
    {
        let ghost orig = self;
        let Node { mut children, element, layout, name } = self;
        let height = match layout.height {
            Length::Fixed(h) => Length::Fixed(h),
            _ => match element.wrap(layout.width) {
                Some(h) => Length::Fixed(h),
                None => layout.height,
            },
        };
        let mut new_children: Vec<Node<M, GrownWidthLayout>> = Vec::new();
        while children.len() > 0
            invariant
                new_children@.len() + children@.len() == orig.children@.len(),
                forall|j: int|
                    0 <= j < children@.len() ==> children@[j] == orig.children@[new_children@.len()
                        + j],
                forall|j: int|
                    0 <= j < new_children@.len() ==> wrap_ok(
                        #[trigger] orig.children@[j],
                        new_children@[j],
                    ),
            decreases children@.len(),
        {
            let ghost k = new_children@.len() as int;
            let c = children.remove(0);
            proof {
                assert(c == orig.children@[k]);
                assert(decreases_to!(orig => orig.children));
                assert(decreases_to!(orig.children => orig.children[k]));
                assert(decreases_to!(orig => c));
            }
            let nc = c.wrap();
            new_children.push(nc);
        }
        Node {
            layout: GrownWidthLayout {
                width: layout.width,
                height,
                padding: layout.padding,
                direction: layout.direction,
                spacing: layout.spacing,
            },
            children: new_children,
            element,
            name,
        }
    }

    /// The fourth pass: the shrink pass mirrored onto heights, with each
    /// node's intrinsic minimum measured at its committed width.
    #[verifier::loop_isolation(false)]
    pub fn shrink_height_pass(self) -> (r: Node<M, ShrinkHeightLayout>)
        ensures
            shrink_height_ok(self, r),
        decreases self,
    {
        let ghost orig = self;
        let Node { mut children, element, layout, name } = self;
        let mut new_children: Vec<Node<M, ShrinkHeightLayout>> = Vec::new();
        let mut heights: Vec<ShrunkLength> = Vec::new();
        while children.len() > 0
            invariant
                new_children@.len() + children@.len() == orig.children@.len(),
                forall|j: int|
                    0 <= j < children@.len() ==> children@[j] == orig.children@[new_children@.len()
                        + j],
                forall|j: int|
                    0 <= j < new_children@.len() ==> shrink_height_ok(
                        #[trigger] orig.children@[j],
                        new_children@[j],
                    ),
                heights@ == shrunk_heights(new_children@),
            decreases children@.len(),
        {
            let ghost k = new_children@.len() as int;
            let c = children.remove(0);
            proof {
                assert(c == orig.children@[k]);
                assert(decreases_to!(orig => orig.children));
                assert(decreases_to!(orig.children => orig.children[k]));
                assert(decreases_to!(orig => c));
            }
            let nc = c.shrink_height_pass();
            heights.push(nc.layout.height);
            new_children.push(nc);
            proof {
                assert(heights@ =~= shrunk_heights(new_children@));
            }
        }
        let new_height = match layout.height {
            Length::Grow => {
                let mh = element.min_height(layout.width);
                if mh == 0 {
                    ShrunkLength::Grow
                } else {
                    ShrunkLength::GrowWithMin(mh)
                }
            },
            Length::Fixed(l) => ShrunkLength::Fixed(l),
            Length::Shrink => {
                match layout.direction {
                    LayoutDirection::Column => ShrunkLength::Fixed(
                        total_flow_shrink(
                            &heights,
                            layout.padding.top,
                            layout.padding.bottom,
                            layout.spacing,
                        ),
                    ),
                    LayoutDirection::Row | LayoutDirection::Stack => ShrunkLength::Fixed(
                        total_cross_shrink(&heights, layout.padding.top, layout.padding.bottom),
                    ),
                }
            },
        };
        Node {
            layout: ShrinkHeightLayout {
                width: layout.width,
                height: new_height,
                padding: layout.padding,
                direction: layout.direction,
                spacing: layout.spacing,
            },
            children: new_children,
            element,
            name,
        }
    }
}

impl<M: Copy> Node<M, ShrinkHeightLayout> {
    /// The fifth pass: the grow pass mirrored onto heights.
    #[verifier::loop_isolation(false)]
    pub fn grow_height_pass(self, assigned_height: u32) -> (r: Node<M, GrownHeightLayout>)
        ensures
            grow_height_ok(self, assigned_height, r),
        decreases self,
    {
        let ghost orig = self;
        let Node { mut children, element, layout, name } = self;
        let mut heights: Vec<ShrunkLength> = Vec::new();
        let mut i: usize = 0;
        while i < children.len()
            invariant
                0 <= i <= children@.len(),
                children@ == orig.children@,
                heights@ == shrunk_heights(orig.children@).take(i as int),
            decreases children@.len() - i,
        {
            heights.push(children[i].layout.height);
            proof {
                assert(heights@ =~= shrunk_heights(orig.children@).take(i + 1));
            }
            i = i + 1;
        }
        proof {
            assert(heights@ =~= shrunk_heights(orig.children@));
        }
        let flow = match layout.direction {
            LayoutDirection::Column => true,
            LayoutDirection::Row | LayoutDirection::Stack => false,
        };
        let mut new_children: Vec<Node<M, GrownHeightLayout>> = Vec::new();
        while children.len() > 0
            invariant
                heights@ == shrunk_heights(orig.children@),
                new_children@.len() + children@.len() == orig.children@.len(),
                forall|j: int|
                    0 <= j < children@.len() ==> children@[j] == orig.children@[new_children@.len()
                        + j],
                forall|j: int|
                    0 <= j < new_children@.len() ==> grow_height_ok(
                        #[trigger] orig.children@[j],
                        spec_grow_assign(
                            shrunk_heights(orig.children@),
                            j,
                            orig.layout.direction == LayoutDirection::Column,
                            assigned_height,
                            orig.layout.padding.top,
                            orig.layout.padding.bottom,
                            orig.layout.spacing,
                        ) as u32,
                        new_children@[j],
                    ),
            decreases children@.len(),
        {
            let k = new_children.len();
            let h = grow_assign_exec(
                &heights,
                k,
                flow,
                assigned_height,
                layout.padding.top,
                layout.padding.bottom,
                layout.spacing,
            );
            let c = children.remove(0);
            proof {
                assert(c == orig.children@[k as int]);
                assert(decreases_to!(orig => orig.children));
                assert(decreases_to!(orig.children => orig.children[k as int]));
                assert(decreases_to!(orig => c));
            }
            let nc = c.grow_height_pass(h);
            new_children.push(nc);
        }
        Node {
            layout: GrownHeightLayout {
                width: layout.width,
                height: assigned_height,
                padding: layout.padding,
                direction: layout.direction,
                spacing: layout.spacing,
            },
            children: new_children,
            element,
            name,
        }
    }
}

impl<M: Copy> Node<M, GrownHeightLayout> {
    /// The final pass, top-down: give every node an absolute origin by
    /// accumulating sibling extents along the flow axis from the parent's
    /// content origin; stacked children all share that origin.
    #[verifier::loop_isolation(false)]
    pub fn position_pass(self, parent_position: (u32, u32)) -> (r: Node<M, CalculatedLayout>)
        ensures
            position_ok(self, parent_position, r),
        decreases self,
    {
        let ghost orig = self;
        let Node { mut children, element, layout, name } = self;
        let first_x = parent_position.0.saturating_add(layout.padding.left);
        let first_y = parent_position.1.saturating_add(layout.padding.top);
        let ghost first = (first_x as int, first_y as int);
        let mut x: u32 = first_x;
        let mut y: u32 = first_y;
        let mut new_children: Vec<Node<M, CalculatedLayout>> = Vec::new();
        while children.len() > 0
            invariant
                new_children@.len() + children@.len() == orig.children@.len(),
                forall|j: int|
                    0 <= j < children@.len() ==> children@[j] == orig.children@[new_children@.len()
                        + j],
                (x as int, y as int) == spec_child_origin(
                    orig.layout.direction,
                    orig.layout.spacing,
                    orig.children@,
                    first,
                    new_children@.len() as int,
                ),
                forall|j: int|
                    0 <= j < new_children@.len() ==> position_ok(
                        #[trigger] orig.children@[j],
                        spec_child_origin_u32(
                            orig.layout.direction,
                            orig.layout.spacing,
                            orig.children@,
                            first,
                            j,
                        ),
                        new_children@[j],
                    ),
            decreases children@.len(),
        {
            let ghost k = new_children@.len() as int;
            let c = children.remove(0);
            proof {
                assert(c == orig.children@[k]);
                assert(decreases_to!(orig => orig.children));
                assert(decreases_to!(orig.children => orig.children[k]));
                assert(decreases_to!(orig => c));
            }
            let start = (x, y);
            match layout.direction {
                LayoutDirection::Row => {
                    x = x.saturating_add(c.layout.width).saturating_add(layout.spacing);
                },
                LayoutDirection::Column => {
                    y = y.saturating_add(c.layout.height).saturating_add(layout.spacing);
                },
                LayoutDirection::Stack => {},
            }
            let nc = c.position_pass(start);
            new_children.push(nc);
        }
        Node {
            layout: CalculatedLayout {
                x: parent_position.0,
                y: parent_position.1,
                w: layout.width,
                h: layout.height,
            },
            children: new_children,
            element,
            name,
        }
    }
}

} // verus!
