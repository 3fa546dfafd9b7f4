//! Refine edges: how far the filter of one mask reads on one render, and the
//! grid it works on.
//!
//! The filter gathers the colours of the guide around each place three times,
//! over a box of cells, and weighs what lies inside the mask by a reached
//! field: how far each cell is joined to the outside of the mask through like
//! colour. The field is spread in a bounded number of doubling passes.

use crate::edge::at;
use crate::edge::place;
use crate::grid::{cells_touched, touched};
use crate::mask::Refine;
use crate::num::{Single, ZERO};
use vstd::prelude::*;

verus! {

/// How many times the classes are gathered.
pub const GATHERS: u32 = 3;

/// The grid the filter of one mask works on, on one render. The GPU builds
/// its uniforms from the same plan, so the two never differ in a number.
#[derive(Clone, Copy, Debug, PartialEq, Eq)]
pub struct Plan {
    /// The size the whole picture has at the scale of the render.
    pub full: (u32, u32),
    /// Where the render begins on the whole picture, in its pixels.
    pub origin: (u32, u32),
    /// The size of the render.
    pub size: (u32, u32),
    /// The side of a cell in render pixels.
    pub step: u32,
    /// The radius of the box in cells.
    pub cells: u32,
    /// How far the reached field spreads at most, in cells: the radius in
    /// cells.
    pub flood: u32,
}

impl Refine {
    pub open spec fn off(self) -> bool {
        self.amount.equals(crate::num::single(ZERO))
    }

    /// Whether the filter is off: an amount of 0.
    pub fn is_off(&self) -> (r: bool)
        ensures
            r == self.off(),
    {
        self.amount.same(Single { bits: ZERO })
    }
}

impl Plan {
    pub open spec fn margin_spec(self) -> int {
        GATHERS * self.cells + (GATHERS - 1) + 1 + self.flood
    }

    /// How many cells around the two a pixel lies among one tile of the GPU
    /// holds: a box for each gather, the cell beside for the bilinear step of
    /// the two gathers before the last, and the reached field gather 1 weighs
    /// its inside by: the cell beside for its bilinear read at the pixel and
    /// the flood's cells, which bound the steps of its passes.
    pub fn margin(&self) -> (r: u32)
        requires
            self.margin_spec() <= u32::MAX,
        ensures
            r == self.margin_spec(),
            r == 3 * self.cells + 3 + self.flood,
    {
        GATHERS * self.cells + (GATHERS - 1) + 1 + self.flood
    }

    pub open spec fn reach_spec(self) -> int {
        (self.margin_spec() + 2) * self.step
    }

    /// How far around a pixel the filter reads, in render pixels: the margin,
    /// the cell beside for the bilinear step of the last gather, and the cell
    /// a window may cut at its border.
    pub fn reach(&self) -> (r: u32)
        requires
            self.margin_spec() + 2 <= u32::MAX,
            self.reach_spec() <= u32::MAX,
        ensures
            r == self.reach_spec(),
            r == (3 * self.cells + self.flood + 5) * self.step,
    {
        (self.margin() + 2) * self.step
    }

    /// The first cell of the render on each axis and how many it touches.
    pub fn grid(&self) -> (r: ((u32, u32), (u32, u32)))
        requires
            self.step > 0,
            self.origin.0 + self.size.0 <= u32::MAX,
            self.origin.1 + self.size.1 <= u32::MAX,
        ensures
            ({
                let across = cells_touched(self.origin.0 as int, self.size.0 as int, self.step as int);
                let down = cells_touched(self.origin.1 as int, self.size.1 as int, self.step as int);
                let ((x, y), (columns, rows)) = r;
                x == across.0 && columns == across.1 && y == down.0 && rows == down.1
            }),
    {
        let (x, columns): (u32, u32) = touched(self.origin.0, self.size.0, self.step);
        let (y, rows): (u32, u32) = touched(self.origin.1, self.size.1, self.step);
        ((x, y), (columns, rows))
    }
}

/// [`Plan::reach`] of a refine, or 0 while it is off: what a window is padded
/// by.
pub fn reach(refine: &Refine, plan: &Plan) -> (r: u32)
    requires
        plan.margin_spec() + 2 <= u32::MAX,
        plan.reach_spec() <= u32::MAX,
    ensures
        r == if refine.off() {
            0
        } else {
            plan.reach_spec()
        },
        refine.amount.bits == 0 ==> r == 0,
        0 < refine.amount.bits <= 0x7f80_0000 ==> r == (3 * plan.cells + plan.flood + 5)
            * plan.step,
{
    if refine.is_off() {
        0
    } else {
        plan.reach()
    }
}

/// The sum of steps.
pub open spec fn walked(steps: Seq<u32>) -> int
    decreases steps.len(),
{
    if steps.len() == 0 {
        0
    } else {
        walked(steps.drop_last()) + steps.last()
    }
}

/// The steps of the passes that spread the reached field, in cells: 1, 2, 4
/// and so on, as many as sum to at most `flood`.
pub fn flood_steps(flood: u32) -> (r: Vec<u32>)
    ensures
        forall|i: int|
            0 <= i < r@.len() ==> #[trigger] r@[i] == vstd::arithmetic::power2::pow2(i as nat),
        walked(r@) <= flood,
        walked(r@) + vstd::arithmetic::power2::pow2(r@.len()) > flood,
{
    let mut steps: Vec<u32> = Vec::new();
    let mut total: u64 = 0;
    let mut step: u64 = 1;
    proof {
        vstd::arithmetic::power2::lemma2_to64();
    }
    while total + step <= flood as u64
        invariant
            total == walked(steps@),
            total <= flood,
            step == total + 1,
            step == vstd::arithmetic::power2::pow2(steps@.len()),
            forall|i: int|
                0 <= i < steps@.len() ==> #[trigger] steps@[i] == vstd::arithmetic::power2::pow2(
                    i as nat,
                ),
        decreases flood - total,
    {
        let ghost before = steps@;
        steps.push(step as u32);
        total = total + step;
        step = 2 * step;
        proof {
            vstd::arithmetic::power2::lemma_pow2_unfold(steps@.len());
            assert(steps@.drop_last() =~= before);
        }
    }
    steps
}

/// The 8 cells a step away across, down and on the diagonals, in the order a
/// pass reads them.
pub open spec fn eight_around(x: int, y: int, step: int) -> Seq<(int, int)> {
    seq![
        (x + step, y),
        (x - step, y),
        (x, y + step),
        (x, y - step),
        (x + step, y + step),
        (x + step, y - step),
        (x - step, y + step),
        (x - step, y - step),
    ]
}

/// Where the 8 cells a pass of the reached field reads around a cell stand in
/// the list of cells. A read past the edge of the grid is the edge cell.
pub fn neighbours(x: u32, y: u32, step: u32, grid: (u32, u32)) -> (r: [usize; 8])
    requires
        x < grid.0,
        y < grid.1,
        grid.0 * grid.1 <= usize::MAX,
    ensures
        forall|i: int|
            0 <= i < 8 ==> #[trigger] r@[i] == place(
                eight_around(x as int, y as int, step as int)[i].0,
                eight_around(x as int, y as int, step as int)[i].1,
                grid,
            ),
{
    let (cx, cy): (i64, i64) = (x as i64, y as i64);
    let s: i64 = step as i64;
    [
        at(cx + s, cy, grid),
        at(cx - s, cy, grid),
        at(cx, cy + s, grid),
        at(cx, cy - s, grid),
        at(cx + s, cy + s, grid),
        at(cx + s, cy - s, grid),
        at(cx - s, cy + s, grid),
        at(cx - s, cy - s, grid),
    ]
}

/// The reached field never spreads further than the flood: however many
/// passes of however many cells carried it, the cells it crossed sum to at
/// most the flood's.
pub proof fn the_flood_bounds_the_passes(steps: Seq<u32>, taken: int)
    requires
        0 <= taken <= steps.len(),
    ensures
        0 <= walked(steps.take(taken)) <= walked(steps),
    decreases steps.len(),
{
    if taken == steps.len() {
        assert(steps.take(taken) =~= steps);
        if steps.len() > 0 {
            the_flood_bounds_the_passes(steps.drop_last(), taken - 1);
        }
    } else {
        the_flood_bounds_the_passes(steps.drop_last(), taken);
        assert(steps.drop_last().take(taken) =~= steps.take(taken));
    }
}

/// The filter is off at an amount of 0 and at no other.
pub proof fn only_no_amount_is_off(refine: Refine)
    ensures
        refine.off() <==> refine.amount.bits == 0 || refine.amount.bits == 0x8000_0000,
{
}

/// Steps add up one by one.
pub proof fn steps_add_up(steps: Seq<u32>, step: u32)
    ensures
        walked(Seq::empty()) == 0,
        walked(steps.push(step)) == walked(steps) + step,
{
    assert(steps.push(step).drop_last() =~= steps);
}

/// A pass reads every cell a step away across, down and on the diagonals, and
/// no other: the 8 that are not the cell itself.
pub proof fn a_pass_reads_the_eight_around(x: int, y: int, step: int, a: int, b: int)
    requires
        -1 <= a <= 1,
        -1 <= b <= 1,
        a != 0 || b != 0,
    ensures
        eight_around(x, y, step).len() == 8,
        eight_around(x, y, step).contains((x + a * step, y + b * step)),
{
    let around = eight_around(x, y, step);
    assert(a * step == step || a * step == 0 || a * step == -step) by (nonlinear_arith)
        requires
            -1 <= a <= 1,
    ;
    assert(a == 1 ==> a * step == step) by (nonlinear_arith);
    assert(a == 0 ==> a * step == 0) by (nonlinear_arith);
    assert(a == -1 ==> a * step == -step) by (nonlinear_arith);
    assert(b == 1 ==> b * step == step) by (nonlinear_arith);
    assert(b == 0 ==> b * step == 0) by (nonlinear_arith);
    assert(b == -1 ==> b * step == -step) by (nonlinear_arith);
    let at = (x + a * step, y + b * step);
    if a == 1 && b == 0 {
        assert(around[0] == at);
    } else if a == -1 && b == 0 {
        assert(around[1] == at);
    } else if a == 0 && b == 1 {
        assert(around[2] == at);
    } else if a == 0 && b == -1 {
        assert(around[3] == at);
    } else if a == 1 && b == 1 {
        assert(around[4] == at);
    } else if a == 1 && b == -1 {
        assert(around[5] == at);
    } else if a == -1 && b == 1 {
        assert(around[6] == at);
    } else {
        assert(around[7] == at);
    }
}

/// The margin holds a box of cells for each of the three gathers, a cell
/// beside for each bilinear read, and the flood; the reach is two cells more,
/// in pixels.
pub proof fn the_reach_holds_three_boxes_and_the_flood(plan: Plan)
    ensures
        plan.margin_spec() == plan.cells + plan.cells + plan.cells + 2 + 1 + plan.flood,
        plan.reach_spec() == (plan.margin_spec() + 1 + 1) * plan.step,
{
}

} // verus!
