use vstd::prelude::*;
use vstd::arithmetic::div_mod::{lemma_div_by_multiple, lemma_div_is_ordered};
use vstd::arithmetic::mul::lemma_mul_inequality;
use crate::geometry::{Direction, Rectangle};

verus! {

/// A sizing rule for one segment of a split.
#[derive(Clone, Copy, Debug, PartialEq, Eq, Structural)]
pub enum Constraint {
    /// Exactly this many cells, as far as the parent has room for them.
    Length(u16),
    /// A share of the room that the lengths and gaps leave, by weight.
    Fill(u16),
}

pub open spec fn fixed_len(c: Constraint) -> int {
    match c {
        Constraint::Length(n) => n as int,
        Constraint::Fill(_) => 0,
    }
}

pub open spec fn raw_weight(c: Constraint) -> int {
    match c {
        Constraint::Length(_) => 0,
        Constraint::Fill(w) => w as int,
    }
}

/// Sum of the lengths of the first `k` constraints.
pub open spec fn fixed_prefix(cs: Seq<Constraint>, k: int) -> int
    decreases k,
{
    if k <= 0 {
        0
    } else {
        fixed_prefix(cs, k - 1) + fixed_len(cs[k - 1])
    }
}

/// Sum of the weights of the first `k` constraints, as written.
pub open spec fn weight_prefix(cs: Seq<Constraint>, k: int) -> int
    decreases k,
{
    if k <= 0 {
        0
    } else {
        weight_prefix(cs, k - 1) + raw_weight(cs[k - 1])
    }
}

/// The weight a constraint takes part with: its own, or one for every fill
/// when all fills weigh zero.
pub open spec fn eff_weight(cs: Seq<Constraint>, c: Constraint) -> int {
    match c {
        Constraint::Length(_) => 0,
        Constraint::Fill(w) => if weight_prefix(cs, cs.len() as int) > 0 {
            w as int
        } else {
            1
        },
    }
}

/// Sum of the effective weights of the first `k` constraints.
pub open spec fn fill_prefix(cs: Seq<Constraint>, k: int) -> int
    decreases k,
{
    if k <= 0 {
        0
    } else {
        fill_prefix(cs, k - 1) + eff_weight(cs, cs[k - 1])
    }
}

/// Total effective weight of all fills.
pub open spec fn fill_total(cs: Seq<Constraint>) -> int {
    fill_prefix(cs, cs.len() as int)
}

/// Cells taken by the gaps between `n` segments.
pub open spec fn gaps_total(n: int, spacing: int) -> int {
    if n <= 0 {
        0
    } else {
        (n - 1) * spacing
    }
}

/// The room that lengths and gaps leave of `extent`, shared among the fills.
pub open spec fn room(cs: Seq<Constraint>, spacing: int, extent: int) -> int {
    let used = gaps_total(cs.len() as int, spacing) + fixed_prefix(cs, cs.len() as int);
    if used <= extent {
        extent - used
    } else {
        0
    }
}

/// The room handed to the fills among the first `k` constraints, rounded down.
pub open spec fn fill_point(cs: Seq<Constraint>, spacing: int, extent: int, k: int) -> int {
    if fill_total(cs) == 0 {
        0
    } else {
        room(cs, spacing, extent) * fill_prefix(cs, k) / fill_total(cs)
    }
}

/// The length segment `i` asks for before clipping.
pub open spec fn desired(cs: Seq<Constraint>, spacing: int, extent: int, i: int) -> int {
    match cs[i] {
        Constraint::Length(n) => n as int,
        Constraint::Fill(_) => fill_point(cs, spacing, extent, i + 1) - fill_point(
            cs,
            spacing,
            extent,
            i,
        ),
    }
}

/// Sum of the lengths the first `k` segments ask for.
pub open spec fn seg_prefix(cs: Seq<Constraint>, spacing: int, extent: int, k: int) -> int
    decreases k,
{
    if k <= 0 {
        0
    } else {
        seg_prefix(cs, spacing, extent, k - 1) + desired(cs, spacing, extent, k - 1)
    }
}

pub open spec fn clip(extent: int, v: int) -> int {
    if v <= extent {
        v
    } else {
        extent
    }
}

/// Offset of the start of segment `i` from the parent's origin.
pub open spec fn seg_start(cs: Seq<Constraint>, spacing: int, extent: int, i: int) -> int {
    clip(extent, seg_prefix(cs, spacing, extent, i) + i * spacing)
}

/// Offset of the end of segment `i` (the start of the gap after it).
pub open spec fn seg_end(cs: Seq<Constraint>, spacing: int, extent: int, i: int) -> int {
    clip(extent, seg_prefix(cs, spacing, extent, i + 1) + i * spacing)
}

/// The part of `parent` from `start` to `end` along `dir`.
pub open spec fn place(parent: Rectangle, dir: Direction, start: int, end: int) -> Rectangle {
    match dir {
        Direction::Horizontal => Rectangle {
            x: (parent.x + start) as u16,
            y: parent.y,
            width: (end - start) as u16,
            height: parent.height,
        },
        Direction::Vertical => Rectangle {
            x: parent.x,
            y: (parent.y + start) as u16,
            width: parent.width,
            height: (end - start) as u16,
        },
    }
}

/// Segment `i` of the split of `parent` along `dir`.
pub open spec fn seg_rect(
    parent: Rectangle,
    dir: Direction,
    cs: Seq<Constraint>,
    spacing: int,
    i: int,
) -> Rectangle {
    let e = parent.extent(dir);
    place(parent, dir, seg_start(cs, spacing, e, i), seg_end(cs, spacing, e, i))
}

/// The gap between segments `i` and `i + 1`.
pub open spec fn gap_rect(
    parent: Rectangle,
    dir: Direction,
    cs: Seq<Constraint>,
    spacing: int,
    i: int,
) -> Rectangle {
    let e = parent.extent(dir);
    place(parent, dir, seg_end(cs, spacing, e, i), seg_start(cs, spacing, e, i + 1))
}

proof fn lemma_fill_prefix_mono(cs: Seq<Constraint>, i: int, j: int)
    requires
        0 <= i <= j,
    ensures
        fill_prefix(cs, i) <= fill_prefix(cs, j),
    decreases j,
{
    if i < j {
        lemma_fill_prefix_mono(cs, i, j - 1);
    }
}

proof fn lemma_fill_point_mono(cs: Seq<Constraint>, spacing: int, extent: int, i: int, j: int)
    requires
        0 <= i <= j <= cs.len(),
    ensures
        0 <= fill_point(cs, spacing, extent, i) <= fill_point(cs, spacing, extent, j) <= room(
            cs,
            spacing,
            extent,
        ),
{
    let w = fill_total(cs);
    if w != 0 {
        let r = room(cs, spacing, extent);
        lemma_fill_prefix_mono(cs, 0, i);
        lemma_fill_prefix_mono(cs, i, j);
        lemma_fill_prefix_mono(cs, j, cs.len() as int);
        let a = fill_prefix(cs, i);
        let b = fill_prefix(cs, j);
        assert(0 <= r * a) by (nonlinear_arith)
            requires
                r >= 0,
                a >= 0,
        ;
        assert(r * a <= r * b) by (nonlinear_arith)
            requires
                r >= 0,
                a <= b,
        ;
        assert(r * b <= r * w) by (nonlinear_arith)
            requires
                r >= 0,
                b <= w,
        ;
        lemma_div_is_ordered(0, r * a, w);
        lemma_div_is_ordered(r * a, r * b, w);
        lemma_div_is_ordered(r * b, r * w, w);
        lemma_div_by_multiple(r, w);
    }
}

proof fn lemma_fixed_prefix_nonneg(cs: Seq<Constraint>, k: int)
    ensures
        fixed_prefix(cs, k) >= 0,
    decreases k,
{
    if k > 0 {
        lemma_fixed_prefix_nonneg(cs, k - 1);
    }
}

proof fn lemma_room_bounds(cs: Seq<Constraint>, spacing: int, extent: int)
    requires
        spacing >= 0,
        extent >= 0,
    ensures
        0 <= room(cs, spacing, extent) <= extent,
{
    lemma_fixed_prefix_nonneg(cs, cs.len() as int);
    assert(gaps_total(cs.len() as int, spacing) >= 0) by (nonlinear_arith)
        requires
            spacing >= 0,
    ;
}

/// Every segment asks for at most `u16::MAX` cells, and none for fewer than zero.
proof fn lemma_desired_bounds(cs: Seq<Constraint>, spacing: int, extent: int, i: int)
    requires
        0 <= i < cs.len(),
        0 <= extent <= u16::MAX,
        spacing >= 0,
    ensures
        0 <= desired(cs, spacing, extent, i) <= u16::MAX,
{
    lemma_room_bounds(cs, spacing, extent);
    lemma_fill_point_mono(cs, spacing, extent, i, i + 1);
    lemma_fill_point_mono(cs, spacing, extent, 0, i);
}

proof fn lemma_seg_prefix_mono(cs: Seq<Constraint>, spacing: int, extent: int, i: int, j: int)
    requires
        0 <= i <= j <= cs.len(),
        0 <= extent <= u16::MAX,
        spacing >= 0,
    ensures
        seg_prefix(cs, spacing, extent, i) <= seg_prefix(cs, spacing, extent, j),
    decreases j,
{
    if i < j {
        lemma_seg_prefix_mono(cs, spacing, extent, i, j - 1);
        lemma_desired_bounds(cs, spacing, extent, j - 1);
    }
}

/// Segment and gap boundaries never go backwards.
proof fn lemma_bounds_ordered(cs: Seq<Constraint>, spacing: int, extent: int, i: int)
    requires
        0 <= i < cs.len(),
        0 <= extent <= u16::MAX,
        spacing >= 0,
    ensures
        0 <= seg_start(cs, spacing, extent, i) <= seg_end(cs, spacing, extent, i) <= extent,
        i + 1 < cs.len() ==> seg_end(cs, spacing, extent, i) <= seg_start(
            cs,
            spacing,
            extent,
            i + 1,
        ),
{
    lemma_seg_prefix_mono(cs, spacing, extent, 0, i);
    lemma_seg_prefix_mono(cs, spacing, extent, i, i + 1);
    assert(i * spacing >= 0) by (nonlinear_arith)
        requires
            i >= 0,
            spacing >= 0,
    ;
    assert((i + 1) * spacing == i * spacing + spacing) by (nonlinear_arith);
}

/// Sum of the extents along `dir` of the first `k` segments.
pub open spec fn segments_extent(
    parent: Rectangle,
    dir: Direction,
    cs: Seq<Constraint>,
    spacing: int,
    k: int,
) -> int
    decreases k,
{
    if k <= 0 {
        0
    } else {
        segments_extent(parent, dir, cs, spacing, k - 1) + seg_rect(
            parent,
            dir,
            cs,
            spacing,
            k - 1,
        ).extent(dir)
    }
}

/// Sum of the extents along `dir` of the first `k` gaps.
pub open spec fn gaps_extent(
    parent: Rectangle,
    dir: Direction,
    cs: Seq<Constraint>,
    spacing: int,
    k: int,
) -> int
    decreases k,
{
    if k <= 0 {
        0
    } else {
        gaps_extent(parent, dir, cs, spacing, k - 1) + gap_rect(parent, dir, cs, spacing, k - 1).extent(
            dir,
        )
    }
}

/// Cells covered by all segments and gaps of a split, along its axis.
pub open spec fn split_extent(
    parent: Rectangle,
    dir: Direction,
    cs: Seq<Constraint>,
    spacing: int,
) -> int {
    segments_extent(parent, dir, cs, spacing, cs.len() as int) + gaps_extent(
        parent,
        dir,
        cs,
        spacing,
        gaps_total(cs.len() as int, 1),
    )
}

proof fn lemma_place_extent(parent: Rectangle, dir: Direction, start: int, end: int)
    requires
        0 <= start <= end <= parent.extent(dir),
    ensures
        place(parent, dir, start, end).extent(dir) == end - start,
{
}

/// The segments and gaps up to segment `k - 1` cover the parent from its origin
/// to the end of that segment.
proof fn lemma_telescope(parent: Rectangle, dir: Direction, cs: Seq<Constraint>, spacing: int, k: int)
    requires
        1 <= k <= cs.len(),
        spacing >= 0,
    ensures
        segments_extent(parent, dir, cs, spacing, k) + gaps_extent(parent, dir, cs, spacing, k - 1)
            == seg_end(cs, spacing, parent.extent(dir), k - 1),
    decreases k,
{
    let e = parent.extent(dir);
    lemma_bounds_ordered(cs, spacing, e, k - 1);
    lemma_place_extent(parent, dir, seg_start(cs, spacing, e, k - 1), seg_end(cs, spacing, e, k - 1));
    if k == 1 {
        assert(0 * spacing == 0);
        assert(seg_prefix(cs, spacing, e, 0) == 0);
        assert(seg_start(cs, spacing, e, 0) == 0);
        assert(gaps_extent(parent, dir, cs, spacing, 0) == 0);
        assert(segments_extent(parent, dir, cs, spacing, 0) == 0);
    } else {
        lemma_telescope(parent, dir, cs, spacing, k - 1);
        lemma_bounds_ordered(cs, spacing, e, k - 2);
        lemma_place_extent(
            parent,
            dir,
            seg_end(cs, spacing, e, k - 2),
            seg_start(cs, spacing, e, k - 1),
        );
    }
}

/// What the segments ask for is the lengths plus the fills' share so far.
proof fn lemma_seg_prefix_split(cs: Seq<Constraint>, spacing: int, extent: int, k: int)
    requires
        0 <= k <= cs.len(),
    ensures
        seg_prefix(cs, spacing, extent, k) == fixed_prefix(cs, k) + fill_point(cs, spacing, extent, k),
    decreases k,
{
    if k > 0 {
        lemma_seg_prefix_split(cs, spacing, extent, k - 1);
    } else {
        let r = room(cs, spacing, extent);
        assert(fill_prefix(cs, 0) == 0);
        assert(r * 0 == 0);
    }
}

proof fn lemma_no_fill_no_weight(cs: Seq<Constraint>, k: int)
    requires
        0 <= k <= cs.len(),
        forall|i: int| 0 <= i < cs.len() ==> cs[i] is Length,
    ensures
        fill_prefix(cs, k) == 0,
    decreases k,
{
    if k > 0 {
        lemma_no_fill_no_weight(cs, k - 1);
    }
}

proof fn lemma_weights_as_written(cs: Seq<Constraint>, k: int)
    requires
        0 <= k <= cs.len(),
        weight_prefix(cs, cs.len() as int) > 0,
    ensures
        fill_prefix(cs, k) == weight_prefix(cs, k),
    decreases k,
{
    if k > 0 {
        lemma_weights_as_written(cs, k - 1);
    }
}

proof fn lemma_fill_total_positive(cs: Seq<Constraint>, i: int)
    requires
        0 <= i < cs.len(),
        cs[i] is Fill,
    ensures
        fill_total(cs) > 0,
{
    if weight_prefix(cs, cs.len() as int) > 0 {
        lemma_weights_as_written(cs, cs.len() as int);
    } else {
        lemma_fill_prefix_mono(cs, 0, i);
        lemma_fill_prefix_mono(cs, i + 1, cs.len() as int);
    }
}

/// A split without fills never covers more than the parent's extent; when the
/// lengths and gaps fit, every segment and gap gets its full size, so the
/// split covers exactly the parent's extent when they add up to it.
pub proof fn lemma_split_without_fill(
    parent: Rectangle,
    dir: Direction,
    cs: Seq<Constraint>,
    spacing: int,
)
    requires
        parent.wf(),
        0 <= spacing <= u16::MAX,
        forall|i: int| 0 <= i < cs.len() ==> cs[i] is Length,
    ensures
        split_extent(parent, dir, cs, spacing) <= parent.extent(dir),
        gaps_total(cs.len() as int, spacing) + fixed_prefix(cs, cs.len() as int) <= parent.extent(dir)
            ==> split_extent(parent, dir, cs, spacing) == gaps_total(cs.len() as int, spacing)
            + fixed_prefix(cs, cs.len() as int),
{
    let n = cs.len() as int;
    let e = parent.extent(dir);
    if n > 0 {
        lemma_telescope(parent, dir, cs, spacing, n);
        lemma_seg_prefix_split(cs, spacing, e, n);
        lemma_no_fill_no_weight(cs, n);
        lemma_fixed_prefix_nonneg(cs, n);
        assert((n - 1) * spacing >= 0) by (nonlinear_arith)
            requires
                n >= 1,
                spacing >= 0,
        ;
    }
}

/// A split with at least one fill, whose lengths and gaps fit the parent,
/// covers the parent's extent exactly.
pub proof fn lemma_split_with_fill(
    parent: Rectangle,
    dir: Direction,
    cs: Seq<Constraint>,
    spacing: int,
)
    requires
        parent.wf(),
        0 <= spacing <= u16::MAX,
        exists|i: int| 0 <= i < cs.len() && cs[i] is Fill,
        gaps_total(cs.len() as int, spacing) + fixed_prefix(cs, cs.len() as int) <= parent.extent(
            dir,
        ),
    ensures
        split_extent(parent, dir, cs, spacing) == parent.extent(dir),
{
    let n = cs.len() as int;
    let e = parent.extent(dir);
    let i = choose|i: int| 0 <= i < cs.len() && cs[i] is Fill;
    lemma_fill_total_positive(cs, i);
    lemma_telescope(parent, dir, cs, spacing, n);
    lemma_seg_prefix_split(cs, spacing, e, n);
    let r = room(cs, spacing, e);
    lemma_div_by_multiple(r, fill_total(cs));
    assert(r * fill_total(cs) == fill_total(cs) * r) by (nonlinear_arith);
}

/// Every segment and gap of a split lies inside the parent.
pub proof fn lemma_split_inside(
    parent: Rectangle,
    dir: Direction,
    cs: Seq<Constraint>,
    spacing: int,
    i: int,
)
    requires
        parent.wf(),
        0 <= spacing <= u16::MAX,
        0 <= i < cs.len(),
    ensures
        seg_rect(parent, dir, cs, spacing, i).wf(),
        seg_rect(parent, dir, cs, spacing, i).inside(parent),
        i + 1 < cs.len() ==> gap_rect(parent, dir, cs, spacing, i).wf(),
        i + 1 < cs.len() ==> gap_rect(parent, dir, cs, spacing, i).inside(parent),
{
    lemma_bounds_ordered(cs, spacing, parent.extent(dir), i);
}

/// A segment made for `Length(n)` is at most `n` cells long, a gap at most
/// `spacing`, and across the axis both keep the parent's extent.
pub proof fn lemma_split_sizes(
    parent: Rectangle,
    dir: Direction,
    cs: Seq<Constraint>,
    spacing: int,
    i: int,
)
    requires
        parent.wf(),
        0 <= spacing <= u16::MAX,
        0 <= i < cs.len(),
    ensures
        cs[i] is Length ==> seg_rect(parent, dir, cs, spacing, i).extent(dir) <= fixed_len(cs[i]),
        seg_rect(parent, dir, cs, spacing, i).cross_extent(dir) == parent.cross_extent(dir),
        i + 1 < cs.len() ==> gap_rect(parent, dir, cs, spacing, i).extent(dir) <= spacing,
        i + 1 < cs.len() ==> gap_rect(parent, dir, cs, spacing, i).cross_extent(dir)
            == parent.cross_extent(dir),
{
    let e = parent.extent(dir);
    lemma_bounds_ordered(cs, spacing, e, i);
    assert((i + 1) * spacing == i * spacing + spacing) by (nonlinear_arith);
}

fn place_exec(parent: Rectangle, dir: Direction, start: u16, end: u16) -> (r: Rectangle)
    requires
        parent.wf(),
        start <= end <= parent.extent(dir),
    ensures
        r == place(parent, dir, start as int, end as int),
{
    match dir {
        Direction::Horizontal => Rectangle {
            x: parent.x + start,
            y: parent.y,
            width: end - start,
            height: parent.height,
        },
        Direction::Vertical => Rectangle {
            x: parent.x,
            y: parent.y + start,
            width: parent.width,
            height: end - start,
        },
    }
}

fn clip_exec(extent: u16, v: u128) -> (r: u16)
    ensures
        r == clip(extent as int, v as int),
{
    if v <= extent as u128 {
        v as u16
    } else {
        extent
    }
}

/// Splits `parent` along `dir` into one segment per constraint, with `spacing`
/// cells between neighbours.
///
/// Lengths take their cells first, then the fills share what lengths and gaps
/// leave, in proportion to their weights and rounded so that the shares add up
/// to the whole room. Segments and gaps are laid out contiguously from the
/// parent's origin; whatever runs past the parent's far edge is clipped, so
/// segments past the edge have zero length. Returns the segments and the gaps
/// between them.
pub fn split(parent: Rectangle, dir: Direction, constraints: &Vec<Constraint>, spacing: u16) -> (r: (
    Vec<Rectangle>,
    Vec<Rectangle>,
))
    requires
        parent.wf(),
    ensures
        r.0@.len() == constraints@.len(),
        r.1@.len() == gaps_total(constraints@.len() as int, 1),
        forall|i: int|
            0 <= i < r.0@.len() ==> #[trigger] r.0@[i] == seg_rect(
                parent,
                dir,
                constraints@,
                spacing as int,
                i,
            ),
        forall|i: int|
            0 <= i < r.1@.len() ==> #[trigger] r.1@[i] == gap_rect(
                parent,
                dir,
                constraints@,
                spacing as int,
                i,
            ),
{
    let ghost cs = constraints@;
    let n = constraints.len();
    let e = parent.extent_along(dir);
    assert(usize::MAX <= u64::MAX);
    let mut fixed: u128 = 0;
    let mut wsum: u128 = 0;
    let mut i: usize = 0;
    while i < n
        invariant
            n == cs.len(),
            cs == constraints@,
            i <= n,
            fixed == fixed_prefix(cs, i as int),
            wsum == weight_prefix(cs, i as int),
            fixed <= i * 65535,
            wsum <= i * 65535,
        decreases n - i,
    {
        match constraints[i] {
            Constraint::Length(len) => {
                fixed = fixed + len as u128;
            },
            Constraint::Fill(w) => {
                wsum = wsum + w as u128;
            },
        }
        i = i + 1;
    }
    let mut total: u128 = 0;
    i = 0;
    while i < n
        invariant
            n == cs.len(),
            cs == constraints@,
            i <= n,
            wsum == weight_prefix(cs, n as int),
            total == fill_prefix(cs, i as int),
            total <= i * 65535,
        decreases n - i,
    {
        if let Constraint::Fill(w) = constraints[i] {
            total = total + if wsum > 0 {
                w as u128
            } else {
                1
            };
        }
        i = i + 1;
    }
    assert(n * 65535 <= 0xffff_ffff_ffff_ffff_ffff) by (nonlinear_arith)
        requires
            n <= u64::MAX,
    ;
    assert(n * spacing <= n * 65535) by (nonlinear_arith)
        requires
            spacing <= 65535,
    ;
    let gaps: u128 = if n == 0 {
        0
    } else {
        assert((n - 1) * spacing <= n * spacing) by (nonlinear_arith)
            requires
                n >= 1,
        ;
        (n - 1) as u128 * spacing as u128
    };
    assert(gaps <= n * 65535) by (nonlinear_arith)
        requires
            n > 0 ==> gaps == (n - 1) * spacing,
            n == 0 ==> gaps == 0,
            spacing <= 65535,
    ;
    let used: u128 = gaps + fixed;
    let rm: u128 = if used <= e as u128 {
        e as u128 - used
    } else {
        0
    };
    proof {
        lemma_room_bounds(cs, spacing as int, e as int);
    }
    let mut segs: Vec<Rectangle> = Vec::new();
    let mut gap_rects: Vec<Rectangle> = Vec::new();
    let mut p: u128 = 0;
    let mut sp: u128 = 0;
    i = 0;
    while i < n
        invariant
            n == cs.len(),
            cs == constraints@,
            parent.wf(),
            e == parent.extent(dir),
            i <= n,
            wsum == weight_prefix(cs, n as int),
            total == fill_total(cs),
            total <= n * 65535,
            rm == room(cs, spacing as int, e as int),
            rm <= e,
            p == fill_prefix(cs, i as int),
            sp == seg_prefix(cs, spacing as int, e as int, i as int),
            sp <= i * 65535,
            usize::MAX <= u64::MAX,
            segs@.len() == i,
            gap_rects@.len() == if i == n {
                gaps_total(n as int, 1)
            } else {
                i as int
            },
            forall|j: int|
                0 <= j < i ==> #[trigger] segs@[j] == seg_rect(
                    parent,
                    dir,
                    cs,
                    spacing as int,
                    j,
                ),
            forall|j: int|
                0 <= j < gap_rects@.len() ==> #[trigger] gap_rects@[j] == gap_rect(
                    parent,
                    dir,
                    cs,
                    spacing as int,
                    j,
                ),
        decreases n - i,
    {
        proof {
            lemma_desired_bounds(cs, spacing as int, e as int, i as int);
            lemma_bounds_ordered(cs, spacing as int, e as int, i as int);
            lemma_fill_prefix_mono(cs, i as int + 1, n as int);
            lemma_fill_prefix_mono(cs, i as int, i as int + 1);
        }
        let d: u128 = match constraints[i] {
            Constraint::Length(len) => len as u128,
            Constraint::Fill(w) => {
                let q: u128 = p + if wsum > 0 {
                    w as u128
                } else {
                    1
                };
                if total == 0 {
                    0
                } else {
                    assert(rm * q <= 65535 * total) by (nonlinear_arith)
                        requires
                            rm <= 65535,
                            q <= total,
                    ;
                    assert(rm * p <= 65535 * total) by (nonlinear_arith)
                        requires
                            rm <= 65535,
                            p <= total,
                    ;
                    rm * q / total - rm * p / total
                }
            },
        };
        assert(i * spacing <= n * 65535) by (nonlinear_arith)
            requires
                i <= n,
                spacing <= 65535,
        ;
        let off: u128 = i as u128 * spacing as u128;
        assert(off <= i * 65535) by (nonlinear_arith)
            requires
                off == i * spacing,
                spacing <= 65535,
        ;
        let next_sp: u128 = sp + d;
        let start = clip_exec(e, sp + off);
        let end = clip_exec(e, next_sp + off);
        segs.push(place_exec(parent, dir, start, end));
        if i + 1 < n {
            let next_start = clip_exec(e, next_sp + off + spacing as u128);
            assert((i + 1) * spacing == i * spacing + spacing) by (nonlinear_arith);
            gap_rects.push(place_exec(parent, dir, end, next_start));
        }
        p = p + if let Constraint::Fill(w) = constraints[i] {
            if wsum > 0 {
                w as u128
            } else {
                1
            }
        } else {
            0
        };
        sp = next_sp;
        i = i + 1;
    }
    (segs, gap_rects)
}

} // verus!
