//! The edge controls of a mask: Shift edge, Feather and Contrast, applied in
//! that order to the alpha of the mask. This module holds Shift edge, which is
//! exact, and the plan the three are drawn by: how far each reads and on which
//! grid.
//!
//! The alpha is what the GPU holds in an 8-bit texture: one code for each
//! pixel, row after row.
//!
//! Shift edge is grey-level morphology over a regular octagon: a maximum over
//! it grows the mask and a minimum shrinks it. The octagon is four runs, one
//! after another: half-width `axis` along x, then along y, then `diagonal`
//! steps along (1, 1), then along (1, -1). Each run is built in doubling
//! passes, a run forward and a run backward, and the last backward pass also
//! takes the forward run in. A sample past the edge of the render takes the
//! edge pixel. A maximum or a minimum makes no new value, so every pass keeps
//! the 8-bit codes it read and no store rounds.
//!
//! Feather is drawn on a grid of cells laid on the pixel grid of the WHOLE
//! picture at the scale of the render.

use crate::grid::{cells_touched, inside, touched};
use vstd::prelude::*;

verus! {

/// One run of the octagon: its direction and how many steps it reaches on
/// each side.
#[derive(Clone, Copy, Debug, PartialEq, Eq)]
pub struct Run {
    pub direction: (i32, i32),
    pub half: u32,
}

/// What the edge controls of one mask do on one render. The GPU builds its
/// uniforms from the same plan, so the two never differ in a number.
#[derive(Clone, Copy, Debug, PartialEq, Eq)]
pub struct Plan {
    /// The size the whole picture has at the scale of the render.
    pub full: (u32, u32),
    /// Where the render begins on the whole picture, in its pixels.
    pub origin: (u32, u32),
    /// The size of the render.
    pub size: (u32, u32),
    /// Shift edge grows the mask (a maximum), or shrinks it (a minimum).
    pub grow: bool,
    /// The half-width of each axis run in pixels, and the steps of each
    /// diagonal run. Both 0: Shift edge is at rest.
    pub axis: u32,
    pub diagonal: u32,
    /// Whether Feather is on.
    pub feather: bool,
    /// The side of a feather cell in render pixels.
    pub step: u32,
    /// The radius of the feather's kernel in cells.
    pub radius_cells: u32,
    /// Whether Contrast is on.
    pub contrast: bool,
}

/// The runs of the octagon that take a step, in order.
pub open spec fn octagon(axis: u32, diagonal: u32) -> Seq<Run> {
    let straight = if axis > 0 {
        seq![Run { direction: (1, 0), half: axis }, Run { direction: (0, 1), half: axis }]
    } else {
        Seq::empty()
    };
    let slanted = if diagonal > 0 {
        seq![
            Run { direction: (1, 1), half: diagonal },
            Run { direction: (1, (-1) as i32), half: diagonal },
        ]
    } else {
        Seq::empty()
    };
    straight + slanted
}

/// One of the three edge controls.
#[derive(Clone, Copy, Debug, PartialEq, Eq, Structural)]
pub enum Pass {
    Shift,
    Feather,
    Contrast,
}

/// The passes that run, in order.
pub open spec fn passes_spec(plan: Plan) -> Seq<Pass> {
    let shift = if plan.axis > 0 || plan.diagonal > 0 {
        seq![Pass::Shift]
    } else {
        Seq::empty()
    };
    let feather = if plan.feather {
        seq![Pass::Feather]
    } else {
        Seq::empty()
    };
    let contrast = if plan.contrast {
        seq![Pass::Contrast]
    } else {
        Seq::empty()
    };
    shift + feather + contrast
}

impl Plan {
    /// Whether Shift edge moves anything: a run of at least one step.
    pub fn shifts(&self) -> (r: bool)
        ensures
            r == (self.axis > 0 || self.diagonal > 0),
    {
        self.axis > 0 || self.diagonal > 0
    }

    /// Whether Feather is on.
    pub fn feathers(&self) -> (r: bool)
        ensures
            r == self.feather,
    {
        self.feather
    }

    /// Whether Contrast is on.
    pub fn contrasts(&self) -> (r: bool)
        ensures
            r == self.contrast,
    {
        self.contrast
    }

    /// Whether all three are at rest: no pass runs.
    pub fn is_off(&self) -> (r: bool)
        ensures
            r == (self.axis == 0 && self.diagonal == 0 && !self.feather && !self.contrast),
    {
        !self.shifts() && !self.feathers() && !self.contrasts()
    }

    /// The runs of the octagon that take a step, in order.
    pub fn runs(&self) -> (r: Vec<Run>)
        ensures
            r@ == octagon(self.axis, self.diagonal),
    {
        let mut out: Vec<Run> = Vec::new();
        if self.axis > 0 {
            out.push(Run { direction: (1, 0), half: self.axis });
            out.push(Run { direction: (0, 1), half: self.axis });
        }
        if self.diagonal > 0 {
            out.push(Run { direction: (1, 1), half: self.diagonal });
            out.push(Run { direction: (1, -1), half: self.diagonal });
        }
        assert(out@ =~= octagon(self.axis, self.diagonal));
        out
    }

    pub open spec fn shift_reach_spec(self) -> int {
        self.axis + 2 * self.diagonal
    }

    pub open spec fn feather_reach_spec(self) -> int {
        if self.feather {
            (self.radius_cells + 2) * self.step
        } else {
            0
        }
    }

    /// How far Shift edge reads around a pixel: an axis run and two diagonal
    /// runs.
    pub fn shift_reach(&self) -> (r: u32)
        requires
            self.shift_reach_spec() <= u32::MAX,
        ensures
            r == self.shift_reach_spec(),
            r == self.axis + 2 * self.diagonal,
    {
        self.axis + 2 * self.diagonal
    }

    /// How far Feather reads around a pixel, in render pixels: the kernel,
    /// the cell beside for the bilinear read, and the cell a window may cut.
    pub fn feather_reach(&self) -> (r: u32)
        requires
            self.radius_cells <= u32::MAX - 2,
            self.feather_reach_spec() <= u32::MAX,
        ensures
            r == self.feather_reach_spec(),
            self.feather ==> r == (self.radius_cells + 2) * self.step,
            !self.feather ==> r == 0,
    {
        if self.feathers() {
            (self.radius_cells + 2) * self.step
        } else {
            0
        }
    }

    pub open spec fn reach_spec(self) -> int {
        self.shift_reach_spec() + self.feather_reach_spec()
    }

    /// How far the edge controls read around a pixel. Contrast reads the
    /// pixel alone.
    pub fn reach(&self) -> (r: u32)
        requires
            self.radius_cells <= u32::MAX - 2,
            self.reach_spec() <= u32::MAX,
        ensures
            r == self.reach_spec(),
            self.feather ==> r == self.axis + 2 * self.diagonal + (self.radius_cells + 2)
                * self.step,
            !self.feather ==> r == self.axis + 2 * self.diagonal,
    {
        proof {
            assert(self.feather_reach_spec() >= 0) by (nonlinear_arith);
        }
        self.shift_reach() + self.feather_reach()
    }

    /// The passes that run, in order: Shift edge, then Feather, then Contrast,
    /// each skipped while it is at rest.
    pub fn passes(&self) -> (r: Vec<Pass>)
        ensures
            r@ == passes_spec(*self),
    {
        let mut out: Vec<Pass> = Vec::new();
        if self.shifts() {
            out.push(Pass::Shift);
        }
        if self.feathers() {
            out.push(Pass::Feather);
        }
        if self.contrasts() {
            out.push(Pass::Contrast);
        }
        assert(out@ =~= passes_spec(*self));
        out
    }

    /// The first feather cell of the render on each axis and how many it
    /// touches, on the grid of the whole picture.
    pub fn grid(&self) -> (r: ((u32, u32), (u32, u32)))
        requires
            self.step > 0,
            self.origin.0 + self.size.0 <= u32::MAX,
            self.origin.1 + self.size.1 <= u32::MAX,
        ensures
            ({
                let across = cells_touched(self.origin.0 as int, self.size.0 as int, self.step as int);
                let down = cells_touched(self.origin.1 as int, self.size.1 as int, self.step as int);
                let ((x, y), (columns, rows)) = r;
                x == across.0 && columns == across.1 && y == down.0 && rows == down.1
            }),
    {
        let (x, columns): (u32, u32) = touched(self.origin.0, self.size.0, self.step);
        let (y, rows): (u32, u32) = touched(self.origin.1, self.size.1, self.step);
        ((x, y), (columns, rows))
    }
}

/// [`Plan::reach`] of the edge controls, 0 while all three are at rest: what
/// a window is padded by beyond the reach of Refine edges.
pub fn reach(plan: &Plan) -> (r: u32)
    requires
        plan.radius_cells <= u32::MAX - 2,
        plan.reach_spec() <= u32::MAX,
    ensures
        r == plan.reach_spec(),
        plan.axis == 0 && plan.diagonal == 0 && !plan.feather ==> r == 0,
{
    plan.reach()
}

/// The sum of offsets.
pub open spec fn total(offsets: Seq<u32>) -> int
    decreases offsets.len(),
{
    if offsets.len() == 0 {
        0
    } else {
        total(offsets.drop_last()) + offsets.last()
    }
}

/// The offsets of the doubling passes of a run that reaches `half` steps:
/// they add up to the run, and no pass steps further than the run so far.
pub open spec fn doubles(offsets: Seq<u32>, half: int) -> bool {
    &&& total(offsets) == half
    &&& forall|i: int|
        0 <= i < offsets.len() ==> 1 <= #[trigger] offsets[i] <= 1 + total(offsets.take(i))
}

/// The offsets of the doubling passes of a one-sided run that reaches `half`
/// steps: each pass takes the run so far at the pixel and at the pixel that
/// many steps on. `ceil(log2(half + 1))` passes: one less would not double
/// far enough.
pub fn doubling(half: u32) -> (r: Vec<u32>)
    requires
        half < u32::MAX,
    ensures
        doubles(r@, half as int),
        half + 1 <= vstd::arithmetic::power2::pow2(r@.len()),
        r@.len() > 0 ==> vstd::arithmetic::power2::pow2((r@.len() - 1) as nat) < half + 1,
        forall|i: int|
            0 <= i < r@.len() - 1 ==> #[trigger] r@[i] == vstd::arithmetic::power2::pow2(i as nat),
{
    let mut offsets: Vec<u32> = Vec::new();
    let mut length: u32 = 1;
    proof {
        vstd::arithmetic::power2::lemma2_to64();
    }
    while length < half + 1
        invariant
            half < u32::MAX,
            1 <= length <= half + 1,
            length == 1 + total(offsets@),
            length < half + 1 ==> length == vstd::arithmetic::power2::pow2(offsets@.len()),
            half + 1 <= length ==> half + 1 <= vstd::arithmetic::power2::pow2(offsets@.len()),
            offsets@.len() > 0 ==> vstd::arithmetic::power2::pow2((offsets@.len() - 1) as nat) < half
                + 1,
            forall|i: int|
                0 <= i < offsets@.len() ==> 1 <= #[trigger] offsets@[i] <= 1 + total(
                    offsets@.take(i),
                ),
            forall|i: int|
                0 <= i < offsets@.len() && (i < offsets@.len() - 1 || length < half + 1)
                    ==> #[trigger] offsets@[i] == vstd::arithmetic::power2::pow2(i as nat),
        decreases half + 1 - length,
    {
        let left: u32 = half + 1 - length;
        let add: u32 = if length < left {
            length
        } else {
            left
        };
        let ghost before = offsets@;
        offsets.push(add);
        length = length + add;
        proof {
            vstd::arithmetic::power2::lemma_pow2_unfold(offsets@.len());
            assert(offsets@.drop_last() =~= before);
            assert forall|i: int| 0 <= i < offsets@.len() implies 1 <= #[trigger] offsets@[i] <= 1
                + total(offsets@.take(i)) by {
                assert(offsets@.take(i) =~= before.take(i));
                if i < before.len() {
                    assert(before[i] == offsets@[i]);
                } else {
                    assert(before.take(i) =~= before);
                }
            }
            assert forall|i: int|
                0 <= i < offsets@.len() && (i < offsets@.len() - 1 || length < half
                    + 1) implies #[trigger] offsets@[i] == vstd::arithmetic::power2::pow2(
                i as nat,
            ) by {
                if i < before.len() {
                    assert(before[i] == offsets@[i]);
                }
            }
        }
    }
    offsets
}

/// Where a pixel stands in the list; one outside the render is the edge pixel
/// beside it.
pub open spec fn place(x: int, y: int, size: (u32, u32)) -> int {
    inside(y, size.1 as int) * size.0 + inside(x, size.0 as int)
}

/// An alpha of a render: one code for each pixel, and at least one pixel.
pub open spec fn fills(alpha: Seq<u8>, size: (u32, u32)) -> bool {
    size.0 > 0 && size.1 > 0 && alpha.len() == size.0 * size.1
}

pub proof fn place_is_inside(x: int, y: int, size: (u32, u32))
    requires
        size.0 > 0,
        size.1 > 0,
    ensures
        0 <= place(x, y, size) < size.0 * size.1,
{
    let (cx, cy) = (inside(x, size.0 as int), inside(y, size.1 as int));
    assert(0 <= cy * size.0 + cx < size.0 * size.1) by (nonlinear_arith)
        requires
            0 <= cx < size.0,
            0 <= cy < size.1,
    ;
}

proof fn place_of_pixel(x: int, y: int, size: (u32, u32))
    requires
        0 <= x < size.0,
        0 <= y < size.1,
    ensures
        place(x, y, size) == y * size.0 + x,
        place(x, y, size) % (size.0 as int) == x,
        place(x, y, size) / (size.0 as int) == y,
{
    vstd::arithmetic::div_mod::lemma_fundamental_div_mod_converse(
        y * size.0 + x,
        size.0 as int,
        y,
        x,
    );
}

pub(crate) fn at(x: i64, y: i64, size: (u32, u32)) -> (r: usize)
    requires
        size.0 > 0,
        size.1 > 0,
        size.0 * size.1 <= usize::MAX,
    ensures
        r == place(x as int, y as int, size),
{
    let cx: i64 = if x < 0 {
        0
    } else if x >= size.0 as i64 {
        size.0 as i64 - 1
    } else {
        x
    };
    let cy: i64 = if y < 0 {
        0
    } else if y >= size.1 as i64 {
        size.1 as i64 - 1
    } else {
        y
    };
    proof {
        place_is_inside(x as int, y as int, size);
        assert(0 <= cy * size.0 <= cy * size.0 + cx) by (nonlinear_arith)
            requires
                0 <= cx,
                0 <= cy,
        ;
    }
    (cy as usize) * (size.0 as usize) + (cx as usize)
}

/// The maximum (`grow`) or minimum of two codes.
pub open spec fn picked(grow: bool, a: u8, b: u8) -> u8 {
    if grow == (a >= b) {
        a
    } else {
        b
    }
}

fn pick(grow: bool, a: u8, b: u8) -> (r: u8)
    ensures
        r == picked(grow, a, b),
{
    if grow == (a >= b) {
        a
    } else {
        b
    }
}

/// Whether a code wins over another: it is as large when the mask grows, as
/// small when it shrinks.
pub open spec fn wins(grow: bool, a: u8, b: u8) -> bool {
    if grow {
        a >= b
    } else {
        a <= b
    }
}

/// The code at a pixel some steps along a direction.
pub open spec fn sample(
    alpha: Seq<u8>,
    size: (u32, u32),
    x: int,
    y: int,
    direction: (i32, i32),
    steps: int,
) -> u8 {
    alpha[place(x + steps * direction.0, y + steps * direction.1, size)]
}

/// `code` is the winner among the samples from `low` up to `high` steps along
/// a direction.
pub open spec fn best(
    code: u8,
    alpha: Seq<u8>,
    size: (u32, u32),
    x: int,
    y: int,
    direction: (i32, i32),
    low: int,
    high: int,
    grow: bool,
) -> bool {
    &&& exists|i: int| low <= i < high && code == #[trigger] sample(alpha, size, x, y, direction, i)
    &&& forall|i: int|
        low <= i < high ==> wins(grow, code, #[trigger] sample(alpha, size, x, y, direction, i))
}

/// The winner among the samples from `low` up to `high` steps along a
/// direction.
pub open spec fn winner(
    alpha: Seq<u8>,
    size: (u32, u32),
    x: int,
    y: int,
    direction: (i32, i32),
    low: int,
    high: int,
    grow: bool,
) -> u8
    decreases high - low,
{
    if high - low <= 1 {
        sample(alpha, size, x, y, direction, low)
    } else {
        picked(
            grow,
            winner(alpha, size, x, y, direction, low, high - 1, grow),
            sample(alpha, size, x, y, direction, high - 1),
        )
    }
}

proof fn winner_is_best(
    alpha: Seq<u8>,
    size: (u32, u32),
    x: int,
    y: int,
    direction: (i32, i32),
    low: int,
    high: int,
    grow: bool,
)
    requires
        low < high,
    ensures
        best(
            winner(alpha, size, x, y, direction, low, high, grow),
            alpha,
            size,
            x,
            y,
            direction,
            low,
            high,
            grow,
        ),
    decreases high - low,
{
    if high - low <= 1 {
        assert(winner(alpha, size, x, y, direction, low, high, grow) == sample(
            alpha,
            size,
            x,
            y,
            direction,
            low,
        ));
    } else {
        winner_is_best(alpha, size, x, y, direction, low, high - 1, grow);
        let before = winner(alpha, size, x, y, direction, low, high - 1, grow);
        let last = sample(alpha, size, x, y, direction, high - 1);
        let i = choose|i: int|
            low <= i < high - 1 && before == #[trigger] sample(alpha, size, x, y, direction, i);
        assert(sample(alpha, size, x, y, direction, i) == before);
    }
}

proof fn one_best(
    a: u8,
    b: u8,
    alpha: Seq<u8>,
    size: (u32, u32),
    x: int,
    y: int,
    direction: (i32, i32),
    low: int,
    high: int,
    grow: bool,
)
    requires
        best(a, alpha, size, x, y, direction, low, high, grow),
        best(b, alpha, size, x, y, direction, low, high, grow),
    ensures
        a == b,
{
}

/// One run over the whole render: at each pixel the winner among the samples
/// up to `half` steps away on both sides.
pub open spec fn run_spec(alpha: Seq<u8>, size: (u32, u32), run: Run, grow: bool) -> Seq<u8> {
    Seq::new(
        alpha.len(),
        |p: int|
            winner(
                alpha,
                size,
                p % (size.0 as int),
                p / (size.0 as int),
                run.direction,
                -(run.half as int),
                run.half + 1,
                grow,
            ),
    )
}

/// A direction of one pixel at most on each axis.
pub open spec fn unit(direction: (i32, i32)) -> bool {
    -1 <= direction.0 <= 1 && -1 <= direction.1 <= 1
}

/// What stands at a pixel of a pass that covered `length` steps.
spec fn covered(
    now: Seq<u8>,
    alpha: Seq<u8>,
    size: (u32, u32),
    direction: (i32, i32),
    length: int,
    grow: bool,
) -> bool {
    &&& now.len() == alpha.len()
    &&& forall|x: int, y: int|
        0 <= x < size.0 && 0 <= y < size.1 ==> best(
            #[trigger] now[place(x, y, size)],
            alpha,
            size,
            x,
            y,
            direction,
            0,
            length,
            grow,
        )
}

/// A step held inside the render, then more steps the same way, is all the
/// steps at once.
proof fn steps_add_up(v: int, side: int, way: int, first: int, more: int)
    requires
        0 <= v < side,
        -1 <= way <= 1,
        0 <= first,
        0 <= more,
    ensures
        inside(inside(v + first * way, side) + more * way, side) == inside(
            v + (first + more) * way,
            side,
        ),
{
    assert(way == -1 || way == 0 || way == 1);
    assert((first + more) * way == first * way + more * way) by (nonlinear_arith);
    if way == 1 {
        assert(first * way == first && more * way == more);
    } else if way == 0 {
        assert(first * way == 0 && more * way == 0) by (nonlinear_arith)
            requires
                way == 0,
        ;
    } else {
        assert(first * way == -first && more * way == -more) by (nonlinear_arith)
            requires
                way == -1,
        ;
    }
}

proof fn samples_add_up(
    alpha: Seq<u8>,
    size: (u32, u32),
    x: int,
    y: int,
    direction: (i32, i32),
    first: int,
    more: int,
)
    requires
        0 <= x < size.0,
        0 <= y < size.1,
        unit(direction),
        0 <= first,
        0 <= more,
    ensures
        sample(
            alpha,
            size,
            inside(x + first * direction.0, size.0 as int),
            inside(y + first * direction.1, size.1 as int),
            direction,
            more,
        ) == sample(alpha, size, x, y, direction, first + more),
{
    steps_add_up(x, size.0 as int, direction.0 as int, first, more);
    steps_add_up(y, size.1 as int, direction.1 as int, first, more);
}

/// One doubling pass: the run so far at each pixel with the run so far
/// `offset` steps along `direction`, whose place is held inside the render.
fn doubled(
    source: &Vec<u8>,
    size: (u32, u32),
    direction: (i32, i32),
    offset: u32,
    grow: bool,
) -> (r: Vec<u8>)
    requires
        fills(source@, size),
        unit(direction),
    ensures
        r@.len() == source@.len(),
        forall|x: int, y: int|
            0 <= x < size.0 && 0 <= y < size.1 ==> #[trigger] r@[place(x, y, size)] == picked(
                grow,
                source@[place(x, y, size)],
                source@[place(x + offset * direction.0, y + offset * direction.1, size)],
            ),
{
    let mut out: Vec<u8> = Vec::new();
    let count: usize = source.len();
    let mut y: u32 = 0;
    while y < size.1
        invariant
            fills(source@, size),
            count == source@.len(),
            unit(direction),
            0 <= y <= size.1,
            out@.len() == y * size.0,
            forall|a: int, b: int|
                0 <= a < size.0 && 0 <= b < y ==> #[trigger] out@[place(a, b, size)] == picked(
                    grow,
                    source@[place(a, b, size)],
                    source@[place(a + offset * direction.0, b + offset * direction.1, size)],
                ),
        decreases size.1 - y,
    {
        let mut x: u32 = 0;
        proof {
            assert(y * size.0 + size.0 == (y + 1) * size.0) by (nonlinear_arith);
        }
        while x < size.0
            invariant
                fills(source@, size),
                count == source@.len(),
                unit(direction),
                0 <= y < size.1,
                0 <= x <= size.0,
                out@.len() == y * size.0 + x,
                forall|a: int, b: int|
                    0 <= a < size.0 && 0 <= b < size.1 && (b < y || (b == y && a < x))
                        ==> #[trigger] out@[place(a, b, size)] == picked(
                        grow,
                        source@[place(a, b, size)],
                        source@[place(a + offset * direction.0, b + offset * direction.1, size)],
                    ),
            decreases size.0 - x,
        {
            proof {
                assert(-(u32::MAX as int) <= offset * direction.0 <= u32::MAX && -(
                u32::MAX as int) <= offset * direction.1 <= u32::MAX) by (nonlinear_arith)
                    requires
                        -1 <= direction.0 <= 1,
                        -1 <= direction.1 <= 1,
                        0 <= offset <= u32::MAX,
                ;
            }
            let dx: i64 = (offset as i64) * (direction.0 as i64);
            let dy: i64 = (offset as i64) * (direction.1 as i64);
            proof {
                place_is_inside(x as int, y as int, size);
                place_is_inside(x + dx, y + dy, size);
                place_of_pixel(x as int, y as int, size);
            }
            let here: usize = at(x as i64, y as i64, size);
            let far: usize = at(x as i64 + dx, y as i64 + dy, size);
            let ghost before = out@;
            out.push(pick(grow, source[here], source[far]));
            proof {
                assert forall|a: int, b: int|
                    0 <= a < size.0 && 0 <= b < size.1 && (b < y || (b == y && a
                        <= x)) implies #[trigger] out@[place(a, b, size)] == picked(
                    grow,
                    source@[place(a, b, size)],
                    source@[place(a + offset * direction.0, b + offset * direction.1, size)],
                ) by {
                    place_of_pixel(a, b, size);
                    if b < y || a < x {
                        assert(b * size.0 + a < y * size.0 + x) by (nonlinear_arith)
                            requires
                                0 <= a < size.0,
                                0 <= b,
                                b < y || (b == y && a < x),
                                0 <= x,
                        ;
                        assert(out@[place(a, b, size)] == before[place(a, b, size)]);
                    } else {
                        assert(a == x && b == y);
                    }
                }
            }
            x += 1;
        }
        y += 1;
    }
    assert(y * size.0 == size.0 * size.1) by (nonlinear_arith)
        requires
            y == size.1,
    ;
    out
}

proof fn a_pass_covers_more(
    now: Seq<u8>,
    next: Seq<u8>,
    alpha: Seq<u8>,
    size: (u32, u32),
    direction: (i32, i32),
    length: int,
    offset: u32,
    grow: bool,
)
    requires
        fills(alpha, size),
        unit(direction),
        covered(now, alpha, size, direction, length, grow),
        1 <= offset <= length,
        next.len() == now.len(),
        forall|x: int, y: int|
            0 <= x < size.0 && 0 <= y < size.1 ==> #[trigger] next[place(x, y, size)] == picked(
                grow,
                now[place(x, y, size)],
                now[place(x + offset * direction.0, y + offset * direction.1, size)],
            ),
    ensures
        covered(next, alpha, size, direction, length + offset, grow),
{
    assert forall|x: int, y: int| 0 <= x < size.0 && 0 <= y < size.1 implies best(
        #[trigger] next[place(x, y, size)],
        alpha,
        size,
        x,
        y,
        direction,
        0,
        length + offset,
        grow,
    ) by {
        let here = now[place(x, y, size)];
        let fx = inside(x + offset * direction.0, size.0 as int);
        let fy = inside(y + offset * direction.1, size.1 as int);
        assert(place(fx, fy, size) == place(
            x + offset * direction.0,
            y + offset * direction.1,
            size,
        ));
        let far = now[place(fx, fy, size)];
        let code = next[place(x, y, size)];
        assert(code == picked(grow, here, far));
        assert(best(here, alpha, size, x, y, direction, 0, length, grow));
        assert(best(far, alpha, size, fx, fy, direction, 0, length, grow));
        assert forall|i: int| 0 <= i < length + offset implies wins(
            grow,
            code,
            #[trigger] sample(alpha, size, x, y, direction, i),
        ) by {
            if i >= length {
                samples_add_up(alpha, size, x, y, direction, offset as int, i - offset);
                assert(wins(grow, far, sample(alpha, size, fx, fy, direction, i - offset)));
            } else {
                assert(wins(grow, here, sample(alpha, size, x, y, direction, i)));
            }
        }
        if code == here {
            let i = choose|i: int|
                0 <= i < length && here == #[trigger] sample(alpha, size, x, y, direction, i);
            assert(code == sample(alpha, size, x, y, direction, i));
        } else {
            let i = choose|i: int|
                0 <= i < length && far == #[trigger] sample(alpha, size, fx, fy, direction, i);
            samples_add_up(alpha, size, x, y, direction, offset as int, i);
            assert(code == sample(alpha, size, x, y, direction, offset + i));
        }
    }
}

/// A one-sided run by doubling.
fn one_way(alpha: &Vec<u8>, size: (u32, u32), direction: (i32, i32), half: u32, grow: bool) -> (r:
    Vec<u8>)
    requires
        fills(alpha@, size),
        unit(direction),
        half < u32::MAX,
    ensures
        covered(r@, alpha@, size, direction, half + 1, grow),
{
    let offsets: Vec<u32> = doubling(half);
    let mut out: Vec<u8> = alpha.clone();
    assert(out@ =~= alpha@);
    proof {
        assert forall|x: int, y: int| 0 <= x < size.0 && 0 <= y < size.1 implies best(
            #[trigger] out@[place(x, y, size)],
            alpha@,
            size,
            x,
            y,
            direction,
            0,
            1,
            grow,
        ) by {
            assert(sample(alpha@, size, x, y, direction, 0) == alpha@[place(x, y, size)]);
        }
        assert(offsets@.take(0) =~= Seq::empty());
    }
    let mut i: usize = 0;
    while i < offsets.len()
        invariant
            0 <= i <= offsets@.len(),
            fills(alpha@, size),
            unit(direction),
            doubles(offsets@, half as int),
            covered(out@, alpha@, size, direction, 1 + total(offsets@.take(i as int)), grow),
        decreases offsets.len() - i,
    {
        let ghost before = out@;
        let next: Vec<u8> = doubled(&out, size, direction, offsets[i], grow);
        proof {
            a_pass_covers_more(
                before,
                next@,
                alpha@,
                size,
                direction,
                1 + total(offsets@.take(i as int)),
                offsets@[i as int],
                grow,
            );
            assert(offsets@.take(i + 1).drop_last() =~= offsets@.take(i as int));
        }
        out = next;
        i += 1;
    }
    assert(offsets@.take(i as int) =~= offsets@);
    out
}

/// One run of the octagon over the whole render, as the GPU draws it: the
/// forward run by doubling, then the backward run by doubling, whose last
/// pass takes the forward run in.
pub fn run(alpha: &Vec<u8>, size: (u32, u32), along: Run, grow: bool) -> (r: Vec<u8>)
    requires
        fills(alpha@, size),
        unit(along.direction),
        along.half < u32::MAX,
    ensures
        r@ == run_spec(alpha@, size, along, grow),
{
    let (dx, dy): (i32, i32) = along.direction;
    let forward: Vec<u8> = one_way(alpha, size, (dx, dy), along.half, grow);
    let backward: Vec<u8> = one_way(alpha, size, (-dx, -dy), along.half, grow);
    let mut out: Vec<u8> = Vec::new();
    let mut i: usize = 0;
    while i < forward.len()
        invariant
            0 <= i <= forward@.len(),
            fills(alpha@, size),
            unit(along.direction),
            forward@.len() == alpha@.len(),
            along.direction == (dx, dy),
            covered(forward@, alpha@, size, (dx, dy), along.half + 1, grow),
            covered(backward@, alpha@, size, (-dx as i32, -dy as i32), along.half + 1, grow),
            out@.len() == i,
            forall|p: int|
                0 <= p < i ==> #[trigger] out@[p] == run_spec(alpha@, size, along, grow)[p],
        decreases forward.len() - i,
    {
        let code: u8 = pick(grow, forward[i], backward[i]);
        proof {
            let p = i as int;
            let (x, y) = (p % (size.0 as int), p / (size.0 as int));
            pixel_of_place(p, size);
            two_ways_make_the_run(
                forward@[p],
                backward@[p],
                alpha@,
                size,
                x,
                y,
                along.direction,
                along.half as int,
                grow,
            );
            winner_is_best(
                alpha@,
                size,
                x,
                y,
                along.direction,
                -(along.half as int),
                along.half + 1,
                grow,
            );
            one_best(
                code,
                winner(
                    alpha@,
                    size,
                    x,
                    y,
                    along.direction,
                    -(along.half as int),
                    along.half + 1,
                    grow,
                ),
                alpha@,
                size,
                x,
                y,
                along.direction,
                -(along.half as int),
                along.half + 1,
                grow,
            );
        }
        out.push(code);
        i += 1;
    }
    assert(out@ =~= run_spec(alpha@, size, along, grow));
    out
}

pub proof fn pixel_of_place(p: int, size: (u32, u32))
    requires
        size.0 > 0,
        0 <= p < size.0 * size.1,
    ensures
        0 <= p % (size.0 as int) < size.0,
        0 <= p / (size.0 as int) < size.1,
        place(p % (size.0 as int), p / (size.0 as int), size) == p,
{
    let (x, y) = (p % (size.0 as int), p / (size.0 as int));
    vstd::arithmetic::div_mod::lemma_fundamental_div_mod(p, size.0 as int);
    assert(0 <= y < size.1) by (nonlinear_arith)
        requires
            p == size.0 * y + x,
            0 <= x < size.0,
            0 <= p < size.0 * size.1,
            size.0 > 0,
    ;
    assert(size.0 * y == y * size.0) by (nonlinear_arith);
}

proof fn two_ways_make_the_run(
    forward: u8,
    backward: u8,
    alpha: Seq<u8>,
    size: (u32, u32),
    x: int,
    y: int,
    direction: (i32, i32),
    half: int,
    grow: bool,
)
    requires
        0 <= half,
        unit(direction),
        best(forward, alpha, size, x, y, direction, 0, half + 1, grow),
        best(
            backward,
            alpha,
            size,
            x,
            y,
            (-direction.0 as i32, -direction.1 as i32),
            0,
            half + 1,
            grow,
        ),
    ensures
        best(
            picked(grow, forward, backward),
            alpha,
            size,
            x,
            y,
            direction,
            -half,
            half + 1,
            grow,
        ),
{
    let back = (-direction.0 as i32, -direction.1 as i32);
    let code = picked(grow, forward, backward);
    assert forall|i: int| sample(alpha, size, x, y, back, i) == #[trigger] sample(
        alpha,
        size,
        x,
        y,
        direction,
        -i,
    ) by {
        assert(i * back.0 == (-i) * direction.0 && i * back.1 == (-i) * direction.1)
            by (nonlinear_arith)
            requires
                back.0 == -direction.0,
                back.1 == -direction.1,
        ;
    }
    assert forall|i: int| -half <= i < half + 1 implies wins(
        grow,
        code,
        #[trigger] sample(alpha, size, x, y, direction, i),
    ) by {
        if i >= 0 {
            assert(wins(grow, forward, sample(alpha, size, x, y, direction, i)));
        } else {
            assert(wins(grow, backward, sample(alpha, size, x, y, back, -i)));
            assert(sample(alpha, size, x, y, back, -i) == sample(
                alpha,
                size,
                x,
                y,
                direction,
                -(-i),
            ));
        }
    }
    if code == forward {
        let i = choose|i: int|
            0 <= i < half + 1 && forward == #[trigger] sample(alpha, size, x, y, direction, i);
        assert(code == sample(alpha, size, x, y, direction, i));
    } else {
        let i = choose|i: int|
            0 <= i < half + 1 && backward == #[trigger] sample(alpha, size, x, y, back, i);
        assert(code == sample(alpha, size, x, y, direction, -i));
    }
}

/// Runs taken one after another.
pub open spec fn runs_spec(alpha: Seq<u8>, size: (u32, u32), runs: Seq<Run>, grow: bool) -> Seq<u8>
    decreases runs.len(),
{
    if runs.len() == 0 {
        alpha
    } else {
        run_spec(runs_spec(alpha, size, runs.drop_last(), grow), size, runs.last(), grow)
    }
}

/// Shift edge over every pixel of a render: the four runs of the octagon in
/// order. At rest it gives `alpha` back.
pub fn shift(alpha: &Vec<u8>, plan: &Plan) -> (r: Vec<u8>)
    requires
        fills(alpha@, plan.size),
        plan.axis < u32::MAX,
        plan.diagonal < u32::MAX,
    ensures
        r@ == runs_spec(alpha@, plan.size, octagon(plan.axis, plan.diagonal), plan.grow),
{
    let runs: Vec<Run> = plan.runs();
    let mut out: Vec<u8> = alpha.clone();
    assert(out@ =~= alpha@);
    assert(runs@.take(0) =~= Seq::empty());
    let mut i: usize = 0;
    while i < runs.len()
        invariant
            0 <= i <= runs@.len(),
            runs@ == octagon(plan.axis, plan.diagonal),
            plan.axis < u32::MAX,
            plan.diagonal < u32::MAX,
            fills(out@, plan.size),
            out@ == runs_spec(alpha@, plan.size, runs@.take(i as int), plan.grow),
        decreases runs.len() - i,
    {
        assert(runs@.take(i + 1).drop_last() =~= runs@.take(i as int));
        out = run(&out, plan.size, runs[i], plan.grow);
        i += 1;
    }
    assert(runs@.take(i as int) =~= runs@);
    out
}

/// Each run keeps the size of the render.
pub proof fn runs_keep_the_size(alpha: Seq<u8>, size: (u32, u32), runs: Seq<Run>, grow: bool)
    ensures
        runs_spec(alpha, size, runs, grow).len() == alpha.len(),
    decreases runs.len(),
{
    if runs.len() > 0 {
        runs_keep_the_size(alpha, size, runs.drop_last(), grow);
    }
}

/// Shift edge makes no new value: every code of the result is a code of the
/// mask.
pub proof fn a_shift_makes_no_new_value(
    alpha: Seq<u8>,
    size: (u32, u32),
    runs: Seq<Run>,
    grow: bool,
    p: int,
)
    requires
        fills(alpha, size),
        0 <= p < alpha.len(),
    ensures
        alpha.contains(runs_spec(alpha, size, runs, grow)[p]),
    decreases runs.len(),
{
    if runs.len() > 0 {
        let before = runs_spec(alpha, size, runs.drop_last(), grow);
        let run = runs.last();
        let (x, y) = (p % (size.0 as int), p / (size.0 as int));
        runs_keep_the_size(alpha, size, runs.drop_last(), grow);
        winner_is_best(
            before,
            size,
            x,
            y,
            run.direction,
            -(run.half as int),
            run.half + 1,
            grow,
        );
        let i = choose|i: int|
            -(run.half as int) <= i < run.half + 1 && run_spec(before, size, run, grow)[p]
                == #[trigger] sample(before, size, x, y, run.direction, i);
        place_is_inside(x + i * run.direction.0, y + i * run.direction.1, size);
        a_shift_makes_no_new_value(
            alpha,
            size,
            runs.drop_last(),
            grow,
            place(x + i * run.direction.0, y + i * run.direction.1, size),
        );
    } else {
        assert(alpha[p] == runs_spec(alpha, size, runs, grow)[p]);
    }
}

/// Shift edge leaves a flat mask as it is.
pub proof fn a_flat_mask_stays_flat(
    alpha: Seq<u8>,
    size: (u32, u32),
    runs: Seq<Run>,
    grow: bool,
    code: u8,
)
    requires
        fills(alpha, size),
        forall|p: int| 0 <= p < alpha.len() ==> #[trigger] alpha[p] == code,
    ensures
        runs_spec(alpha, size, runs, grow) == alpha,
{
    runs_keep_the_size(alpha, size, runs, grow);
    assert forall|p: int| 0 <= p < alpha.len() implies #[trigger] runs_spec(
        alpha,
        size,
        runs,
        grow,
    )[p] == alpha[p] by {
        a_shift_makes_no_new_value(alpha, size, runs, grow, p);
    }
    assert(runs_spec(alpha, size, runs, grow) =~= alpha);
}

/// A positive shift takes nothing from the mask and a negative one gives it
/// nothing: the new code of a pixel wins over the old one.
pub proof fn a_shift_goes_one_way(
    alpha: Seq<u8>,
    size: (u32, u32),
    runs: Seq<Run>,
    grow: bool,
    p: int,
)
    requires
        fills(alpha, size),
        0 <= p < alpha.len(),
    ensures
        wins(grow, runs_spec(alpha, size, runs, grow)[p], alpha[p]),
    decreases runs.len(),
{
    if runs.len() > 0 {
        let before = runs_spec(alpha, size, runs.drop_last(), grow);
        let run = runs.last();
        let (x, y) = (p % (size.0 as int), p / (size.0 as int));
        runs_keep_the_size(alpha, size, runs.drop_last(), grow);
        pixel_of_place(p, size);
        winner_is_best(
            before,
            size,
            x,
            y,
            run.direction,
            -(run.half as int),
            run.half + 1,
            grow,
        );
        assert(sample(before, size, x, y, run.direction, 0) == before[p]);
        a_shift_goes_one_way(alpha, size, runs.drop_last(), grow, p);
    }
}

/// A render of a part of a picture: its size, and where it begins.
pub ghost struct Window {
    pub size: (u32, u32),
    pub origin: (u32, u32),
    pub full: (u32, u32),
}

impl Window {
    pub open spec fn lies_inside(self) -> bool {
        &&& self.size.0 > 0
        &&& self.size.1 > 0
        &&& self.origin.0 + self.size.0 <= self.full.0
        &&& self.origin.1 + self.size.1 <= self.full.1
    }
}

/// How far into a window its pixels may differ from the whole picture: that
/// many pixels from a side, unless the side is a side of the picture.
pub open spec fn clear_of_the_cut(w: Window, x: int, y: int, dx: int, dy: int) -> bool {
    &&& 0 <= x < w.size.0
    &&& 0 <= y < w.size.1
    &&& w.origin.0 == 0 || x >= dx
    &&& w.origin.1 == 0 || y >= dy
    &&& w.origin.0 + w.size.0 == w.full.0 || x + dx < w.size.0
    &&& w.origin.1 + w.size.1 == w.full.1 || y + dy < w.size.1
}

/// The window shows what the picture shows wherever it is clear of the cut.
pub open spec fn shows(whole: Seq<u8>, part: Seq<u8>, w: Window, dx: int, dy: int) -> bool {
    forall|x: int, y: int|
        clear_of_the_cut(w, x, y, dx, dy) ==> #[trigger] part[place(x, y, w.size)] == whole[place(
            x + w.origin.0,
            y + w.origin.1,
            w.full,
        )]
}

pub open spec fn magnitude(v: int) -> int {
    if v < 0 {
        -v
    } else {
        v
    }
}

proof fn a_sample_in_the_clear(
    whole: Seq<u8>,
    part: Seq<u8>,
    w: Window,
    dx: int,
    dy: int,
    x: int,
    y: int,
    run: Run,
    i: int,
)
    requires
        w.lies_inside(),
        0 <= dx,
        0 <= dy,
        unit(run.direction),
        shows(whole, part, w, dx, dy),
        clear_of_the_cut(
            w,
            x,
            y,
            dx + run.half * magnitude(run.direction.0 as int),
            dy + run.half * magnitude(run.direction.1 as int),
        ),
        -(run.half as int) <= i < run.half + 1,
    ensures
        sample(part, w.size, x, y, run.direction, i) == sample(
            whole,
            w.full,
            x + w.origin.0,
            y + w.origin.1,
            run.direction,
            i,
        ),
{
    let sx = i * run.direction.0;
    let sy = i * run.direction.1;
    let mx = run.half * magnitude(run.direction.0 as int);
    let my = run.half * magnitude(run.direction.1 as int);
    assert(-mx <= sx <= mx) by (nonlinear_arith)
        requires
            sx == i * run.direction.0,
            mx == run.half * magnitude(run.direction.0 as int),
            -1 <= run.direction.0 <= 1,
            -(run.half as int) <= i <= run.half,
    ;
    assert(-my <= sy <= my) by (nonlinear_arith)
        requires
            sy == i * run.direction.1,
            my == run.half * magnitude(run.direction.1 as int),
            -1 <= run.direction.1 <= 1,
            -(run.half as int) <= i <= run.half,
    ;
    let cx = inside(x + sx, w.size.0 as int);
    let cy = inside(y + sy, w.size.1 as int);
    assert(clear_of_the_cut(w, cx, cy, dx, dy));
    assert(place(cx, cy, w.size) == place(x + sx, y + sy, w.size));
    assert(part[place(cx, cy, w.size)] == whole[place(cx + w.origin.0, cy + w.origin.1, w.full)]);
    assert(inside(cx + w.origin.0, w.full.0 as int) == inside(
        x + w.origin.0 + sx,
        w.full.0 as int,
    ));
    assert(inside(cy + w.origin.1, w.full.1 as int) == inside(
        y + w.origin.1 + sy,
        w.full.1 as int,
    ));
}

proof fn winners_in_the_clear(
    whole: Seq<u8>,
    part: Seq<u8>,
    w: Window,
    dx: int,
    dy: int,
    x: int,
    y: int,
    run: Run,
    high: int,
    grow: bool,
)
    requires
        w.lies_inside(),
        0 <= dx,
        0 <= dy,
        unit(run.direction),
        shows(whole, part, w, dx, dy),
        clear_of_the_cut(
            w,
            x,
            y,
            dx + run.half * magnitude(run.direction.0 as int),
            dy + run.half * magnitude(run.direction.1 as int),
        ),
        -(run.half as int) < high <= run.half + 1,
    ensures
        winner(part, w.size, x, y, run.direction, -(run.half as int), high, grow) == winner(
            whole,
            w.full,
            x + w.origin.0,
            y + w.origin.1,
            run.direction,
            -(run.half as int),
            high,
            grow,
        ),
    decreases high + run.half,
{
    a_sample_in_the_clear(whole, part, w, dx, dy, x, y, run, high - 1);
    if high + run.half > 1 {
        winners_in_the_clear(whole, part, w, dx, dy, x, y, run, high - 1, grow);
    }
}

proof fn a_run_in_the_clear(
    whole: Seq<u8>,
    part: Seq<u8>,
    w: Window,
    dx: int,
    dy: int,
    run: Run,
    grow: bool,
)
    requires
        w.lies_inside(),
        fills(whole, w.full),
        fills(part, w.size),
        0 <= dx,
        0 <= dy,
        unit(run.direction),
        shows(whole, part, w, dx, dy),
    ensures
        shows(
            run_spec(whole, w.full, run, grow),
            run_spec(part, w.size, run, grow),
            w,
            dx + run.half * magnitude(run.direction.0 as int),
            dy + run.half * magnitude(run.direction.1 as int),
        ),
{
    let (ex, ey) = (
        dx + run.half * magnitude(run.direction.0 as int),
        dy + run.half * magnitude(run.direction.1 as int),
    );
    assert forall|x: int, y: int| clear_of_the_cut(w, x, y, ex, ey) implies #[trigger] run_spec(
        part,
        w.size,
        run,
        grow,
    )[place(x, y, w.size)] == run_spec(whole, w.full, run, grow)[place(
        x + w.origin.0,
        y + w.origin.1,
        w.full,
    )] by {
        place_of_pixel(x, y, w.size);
        place_is_inside(x, y, w.size);
        place_of_pixel(x + w.origin.0, y + w.origin.1, w.full);
        place_is_inside(x + w.origin.0, y + w.origin.1, w.full);
        winners_in_the_clear(whole, part, w, dx, dy, x, y, run, run.half + 1, grow);
    }
}

/// A window padded by the reach of Shift edge gives what the full render
/// gives: the pixels further than the reach from where the window was cut off
/// are the same.
pub proof fn a_window_padded_by_the_reach_shifts_as_the_whole(
    whole: Seq<u8>,
    part: Seq<u8>,
    w: Window,
    plan: Plan,
)
    requires
        w.lies_inside(),
        fills(whole, w.full),
        fills(part, w.size),
        shows(whole, part, w, 0, 0),
    ensures
        shows(
            runs_spec(whole, w.full, octagon(plan.axis, plan.diagonal), plan.grow),
            runs_spec(part, w.size, octagon(plan.axis, plan.diagonal), plan.grow),
            w,
            plan.shift_reach_spec(),
            plan.shift_reach_spec(),
        ),
{
    let (axis, diagonal, grow) = (plan.axis, plan.diagonal, plan.grow);
    let runs = octagon(axis, diagonal);
    let straight = if axis > 0 {
        seq![Run { direction: (1, 0), half: axis }, Run { direction: (0, 1), half: axis }]
    } else {
        Seq::empty()
    };
    assert(shows(
        runs_spec(whole, w.full, straight, grow),
        runs_spec(part, w.size, straight, grow),
        w,
        axis as int,
        axis as int,
    )) by {
        if axis > 0 {
            let first = straight[0];
            let one = seq![first];
            assert(straight.drop_last() =~= one);
            assert(one.drop_last() =~= Seq::empty());
            assert(runs_spec(whole, w.full, Seq::empty(), grow) == whole);
            assert(runs_spec(part, w.size, Seq::empty(), grow) == part);
            a_run_in_the_clear(whole, part, w, 0, 0, first, grow);
            assert(first.half * magnitude(1) == axis && first.half * magnitude(0) == 0)
                by (nonlinear_arith)
                requires
                    first.half == axis,
                    magnitude(1) == 1,
                    magnitude(0) == 0,
            ;
            runs_keep_the_size(whole, w.full, one, grow);
            runs_keep_the_size(part, w.size, one, grow);
            assert(shows(
                runs_spec(whole, w.full, one, grow),
                runs_spec(part, w.size, one, grow),
                w,
                axis as int,
                0,
            ));
            a_run_in_the_clear(
                runs_spec(whole, w.full, one, grow),
                runs_spec(part, w.size, one, grow),
                w,
                axis as int,
                0,
                straight[1],
                grow,
            );
        }
    }
    if diagonal > 0 {
        let a = Run { direction: (1, 1), half: diagonal };
        let b = Run { direction: (1, (-1) as i32), half: diagonal };
        let three = straight.push(a);
        assert(runs.drop_last() =~= three);
        assert(runs.last() == b);
        assert(three.drop_last() =~= straight);
        runs_keep_the_size(whole, w.full, straight, grow);
        runs_keep_the_size(part, w.size, straight, grow);
        a_run_in_the_clear(
            runs_spec(whole, w.full, straight, grow),
            runs_spec(part, w.size, straight, grow),
            w,
            axis as int,
            axis as int,
            a,
            grow,
        );
        a_run_in_the_clear(
            runs_spec(whole, w.full, three, grow),
            runs_spec(part, w.size, three, grow),
            w,
            axis + diagonal,
            axis + diagonal,
            b,
            grow,
        );
    } else {
        assert(runs =~= straight);
    }
}

/// Of two codes a mask that grows takes the larger and one that shrinks the
/// smaller.
pub proof fn the_larger_grows_and_the_smaller_shrinks(a: u8, b: u8)
    ensures
        picked(true, a, b) >= a && picked(true, a, b) >= b,
        picked(false, a, b) <= a && picked(false, a, b) <= b,
        picked(true, a, b) == a || picked(true, a, b) == b,
        picked(false, a, b) == a || picked(false, a, b) == b,
        wins(true, a, b) <==> a >= b,
        wins(false, a, b) <==> a <= b,
{
}

/// A pixel inside a render stands at its row and column, and a read past the
/// edge is a read of the edge pixel beside it.
pub proof fn a_read_past_the_edge_is_the_edge_pixel(x: int, y: int, size: (u32, u32))
    requires
        size.0 > 0,
        size.1 > 0,
    ensures
        0 <= x < size.0 && 0 <= y < size.1 ==> place(x, y, size) == y * size.0 + x,
        x < 0 ==> place(x, y, size) == place(0, y, size),
        y < 0 ==> place(x, y, size) == place(x, 0, size),
        x >= size.0 ==> place(x, y, size) == place(size.0 - 1, y, size),
        y >= size.1 ==> place(x, y, size) == place(x, size.1 - 1, size),
{
}

/// A run takes in every pixel up to its half-width away on both sides: the
/// new code of a pixel is at least each of them when the mask grows, at most
/// each when it shrinks.
pub proof fn a_run_takes_in_what_it_reaches(
    alpha: Seq<u8>,
    size: (u32, u32),
    run: Run,
    x: int,
    y: int,
    i: int,
)
    requires
        fills(alpha, size),
        0 <= x < size.0,
        0 <= y < size.1,
        -(run.half as int) <= i <= run.half,
        0 <= x + i * run.direction.0 < size.0,
        0 <= y + i * run.direction.1 < size.1,
    ensures
        run_spec(alpha, size, run, true)[y * size.0 + x] >= alpha[(y + i * run.direction.1) * size.0
            + (x + i * run.direction.0)],
        run_spec(alpha, size, run, false)[y * size.0 + x] <= alpha[(y + i * run.direction.1)
            * size.0 + (x + i * run.direction.0)],
{
    place_of_pixel(x, y, size);
    place_is_inside(x, y, size);
    winner_is_best(alpha, size, x, y, run.direction, -(run.half as int), run.half + 1, true);
    winner_is_best(alpha, size, x, y, run.direction, -(run.half as int), run.half + 1, false);
    let code = sample(alpha, size, x, y, run.direction, i);
    assert(code == alpha[(y + i * run.direction.1) * size.0 + (x + i * run.direction.0)]);
    assert(wins(
        true,
        winner(alpha, size, x, y, run.direction, -(run.half as int), run.half + 1, true),
        code,
    ));
}

proof fn a_shift_takes_in_each_run(
    alpha: Seq<u8>,
    size: (u32, u32),
    runs: Seq<Run>,
    grow: bool,
    j: int,
    x: int,
    y: int,
    i: int,
)
    requires
        fills(alpha, size),
        0 <= j < runs.len(),
        0 <= x < size.0,
        0 <= y < size.1,
        -(runs[j].half as int) <= i <= runs[j].half,
        0 <= x + i * runs[j].direction.0 < size.0,
        0 <= y + i * runs[j].direction.1 < size.1,
    ensures
        wins(
            grow,
            runs_spec(alpha, size, runs, grow)[place(x, y, size)],
            alpha[place(x + i * runs[j].direction.0, y + i * runs[j].direction.1, size)],
        ),
    decreases runs.len(),
{
    let before = runs_spec(alpha, size, runs.drop_last(), grow);
    let run = runs.last();
    let q = place(x + i * runs[j].direction.0, y + i * runs[j].direction.1, size);
    runs_keep_the_size(alpha, size, runs.drop_last(), grow);
    place_of_pixel(x, y, size);
    place_is_inside(x, y, size);
    place_is_inside(x + i * runs[j].direction.0, y + i * runs[j].direction.1, size);
    winner_is_best(before, size, x, y, run.direction, -(run.half as int), run.half + 1, grow);
    if j == runs.len() - 1 {
        assert(sample(before, size, x, y, run.direction, i) == before[q]);
        a_shift_goes_one_way(alpha, size, runs.drop_last(), grow, q);
    } else {
        a_shift_takes_in_each_run(alpha, size, runs.drop_last(), grow, j, x, y, i);
        assert(sample(before, size, x, y, run.direction, 0) == before[place(x, y, size)]);
    }
}

/// Shift edge moves the edge as far as it was asked to: a mask that grows
/// covers every pixel `axis` away across or down and `diagonal` steps away on
/// either diagonal as far as the pixel it grows from was covered, and a mask
/// that shrinks uncovers them alike.
pub proof fn a_shift_reaches_as_far_as_asked(
    alpha: Seq<u8>,
    size: (u32, u32),
    axis: u32,
    diagonal: u32,
    grow: bool,
    x: int,
    y: int,
    dx: int,
    dy: int,
)
    requires
        fills(alpha, size),
        0 <= x < size.0,
        0 <= y < size.1,
        0 <= x + dx < size.0,
        0 <= y + dy < size.1,
        ({
            ||| dy == 0 && -(axis as int) <= dx <= axis
            ||| dx == 0 && -(axis as int) <= dy <= axis
            ||| dx == dy && -(diagonal as int) <= dx <= diagonal
            ||| dx == -dy && -(diagonal as int) <= dx <= diagonal
        }),
    ensures
        grow ==> runs_spec(alpha, size, octagon(axis, diagonal), grow)[y * size.0 + x] >= alpha[(y
            + dy) * size.0 + (x + dx)],
        !grow ==> runs_spec(alpha, size, octagon(axis, diagonal), grow)[y * size.0 + x] <= alpha[(y
            + dy) * size.0 + (x + dx)],
{
    let runs = octagon(axis, diagonal);
    let first = if axis > 0 {
        2int
    } else {
        0
    };
    let (one, minus, none) = (1i32, (-1) as i32, 0i32);
    assert(dx * one == dx && dy * one == dy && dx * minus == -dx && dx * none == 0 && dy * none
        == 0) by (nonlinear_arith)
        requires
            one == 1,
            minus == -1,
            none == 0,
    ;
    place_of_pixel(x, y, size);
    place_of_pixel(x + dx, y + dy, size);
    place_is_inside(x, y, size);
    if dx == 0 && dy == 0 {
        a_shift_goes_one_way(alpha, size, runs, grow, place(x, y, size));
    } else if dy == 0 && -(axis as int) <= dx <= axis {
        assert(runs[0] == (Run { direction: (1, 0), half: axis }));
        a_shift_takes_in_each_run(alpha, size, runs, grow, 0, x, y, dx);
    } else if dx == 0 && -(axis as int) <= dy <= axis {
        assert(runs[1] == (Run { direction: (0, 1), half: axis }));
        a_shift_takes_in_each_run(alpha, size, runs, grow, 1, x, y, dy);
    } else if dx == dy {
        assert(runs[first] == (Run { direction: (1, 1), half: diagonal }));
        a_shift_takes_in_each_run(alpha, size, runs, grow, first, x, y, dx);
    } else {
        assert(runs[first + 1] == (Run { direction: (1, (-1) as i32), half: diagonal }));
        a_shift_takes_in_each_run(alpha, size, runs, grow, first + 1, x, y, dx);
    }
}

/// How far runs read on an axis, one after another.
spec fn far(runs: Seq<Run>, across: bool) -> int
    decreases runs.len(),
{
    if runs.len() == 0 {
        0
    } else {
        far(runs.drop_last(), across) + runs.last().half * magnitude(
            if across {
                runs.last().direction.0 as int
            } else {
                runs.last().direction.1 as int
            },
        )
    }
}

proof fn a_shift_reads_no_further_than_its_runs(
    alpha: Seq<u8>,
    size: (u32, u32),
    runs: Seq<Run>,
    grow: bool,
    x: int,
    y: int,
) -> (r: (int, int))
    requires
        fills(alpha, size),
        0 <= x < size.0,
        0 <= y < size.1,
        forall|j: int| 0 <= j < runs.len() ==> unit((#[trigger] runs[j]).direction),
    ensures
        0 <= r.0 < size.0,
        0 <= r.1 < size.1,
        x - far(runs, true) <= r.0 <= x + far(runs, true),
        y - far(runs, false) <= r.1 <= y + far(runs, false),
        runs_spec(alpha, size, runs, grow)[place(x, y, size)] == alpha[place(r.0, r.1, size)],
    decreases runs.len(),
{
    if runs.len() == 0 {
        (x, y)
    } else {
        let before = runs_spec(alpha, size, runs.drop_last(), grow);
        let run = runs.last();
        assert(unit(runs[runs.len() - 1].direction));
        runs_keep_the_size(alpha, size, runs.drop_last(), grow);
        place_of_pixel(x, y, size);
        place_is_inside(x, y, size);
        winner_is_best(before, size, x, y, run.direction, -(run.half as int), run.half + 1, grow);
        let code = winner(
            before,
            size,
            x,
            y,
            run.direction,
            -(run.half as int),
            run.half + 1,
            grow,
        );
        let i = choose|i: int|
            -(run.half as int) <= i < run.half + 1 && code == #[trigger] sample(
                before,
                size,
                x,
                y,
                run.direction,
                i,
            );
        let a = inside(x + i * run.direction.0, size.0 as int);
        let b = inside(y + i * run.direction.1, size.1 as int);
        assert(-(run.half * magnitude(run.direction.0 as int)) <= i * run.direction.0 <= run.half
            * magnitude(run.direction.0 as int)) by (nonlinear_arith)
            requires
                -(run.half as int) <= i <= run.half,
                -1 <= run.direction.0 <= 1,
                magnitude(run.direction.0 as int) == if run.direction.0 < 0 {
                    -run.direction.0
                } else {
                    run.direction.0 as int
                },
        ;
        assert(-(run.half * magnitude(run.direction.1 as int)) <= i * run.direction.1 <= run.half
            * magnitude(run.direction.1 as int)) by (nonlinear_arith)
            requires
                -(run.half as int) <= i <= run.half,
                -1 <= run.direction.1 <= 1,
                magnitude(run.direction.1 as int) == if run.direction.1 < 0 {
                    -run.direction.1
                } else {
                    run.direction.1 as int
                },
        ;
        assert forall|j: int| 0 <= j < runs.drop_last().len() implies unit(
            (#[trigger] runs.drop_last()[j]).direction,
        ) by {
            assert(unit(runs[j].direction));
        }
        a_shift_reads_no_further_than_its_runs(alpha, size, runs.drop_last(), grow, a, b)
    }
}

/// Shift edge reads no further than its reach: the new code of a pixel is the
/// code of some pixel at most `axis + 2 * diagonal` away on each axis.
pub proof fn a_shift_reads_no_further_than_its_reach(
    alpha: Seq<u8>,
    size: (u32, u32),
    axis: u32,
    diagonal: u32,
    grow: bool,
    x: int,
    y: int,
)
    requires
        fills(alpha, size),
        0 <= x < size.0,
        0 <= y < size.1,
    ensures
        exists|a: int, b: int|
            {
                &&& 0 <= a < size.0 && 0 <= b < size.1
                &&& x - axis - 2 * diagonal <= a <= x + axis + 2 * diagonal
                &&& y - axis - 2 * diagonal <= b <= y + axis + 2 * diagonal
                &&& runs_spec(alpha, size, octagon(axis, diagonal), grow)[y * size.0 + x]
                    == alpha[#[trigger] (b * size.0 + a)]
            },
{
    let runs = octagon(axis, diagonal);
    let (a, b) = a_shift_reads_no_further_than_its_runs(alpha, size, runs, grow, x, y);
    reveal_with_fuel(far, 5);
    assert(axis * magnitude(1) == axis && diagonal * magnitude(1) == diagonal && diagonal
        * magnitude(-1) == diagonal && axis * magnitude(0) == 0) by (nonlinear_arith)
        requires
            magnitude(1) == 1,
            magnitude(-1) == 1,
            magnitude(0) == 0,
    ;
    if axis > 0 && diagonal > 0 {
        let three = runs.drop_last();
        let two = three.drop_last();
        let one = two.drop_last();
        assert(one.drop_last() =~= Seq::empty());
        assert(one.last() == (Run { direction: (1, 0), half: axis }));
        assert(two.last() == (Run { direction: (0, 1), half: axis }));
        assert(three.last() == (Run { direction: (1, 1), half: diagonal }));
        assert(runs.last() == (Run { direction: (1, (-1) as i32), half: diagonal }));
        assert(far(one, true) == axis && far(one, false) == 0);
        assert(far(two, true) == axis && far(two, false) == axis);
        assert(far(three, true) == axis + diagonal && far(three, false) == axis + diagonal);
    } else if axis > 0 {
        let one = runs.drop_last();
        assert(one.drop_last() =~= Seq::empty());
        assert(one.last() == (Run { direction: (1, 0), half: axis }));
        assert(runs.last() == (Run { direction: (0, 1), half: axis }));
        assert(far(one, true) == axis && far(one, false) == 0);
    } else if diagonal > 0 {
        let one = runs.drop_last();
        assert(one.drop_last() =~= Seq::empty());
        assert(one.last() == (Run { direction: (1, 1), half: diagonal }));
        assert(runs.last() == (Run { direction: (1, (-1) as i32), half: diagonal }));
        assert(far(one, true) == diagonal && far(one, false) == diagonal);
    }
    assert(far(runs, true) <= axis + 2 * diagonal);
    assert(far(runs, false) <= axis + 2 * diagonal);
    place_of_pixel(x, y, size);
    place_of_pixel(a, b, size);
    assert(alpha[b * size.0 + a] == alpha[place(a, b, size)]);
}

/// At rest Shift edge gives the mask back.
pub proof fn a_shift_at_rest_changes_nothing(alpha: Seq<u8>, size: (u32, u32), grow: bool)
    ensures
        runs_spec(alpha, size, octagon(0, 0), grow) == alpha,
{
    assert(octagon(0, 0) =~= Seq::empty());
}

/// The passes run in one order, each once and only while it is on: Shift edge,
/// then Feather, then Contrast.
pub proof fn the_passes_run_in_order(plan: Plan)
    ensures
        passes_spec(plan).contains(Pass::Shift) <==> plan.axis > 0 || plan.diagonal > 0,
        passes_spec(plan).contains(Pass::Feather) <==> plan.feather,
        passes_spec(plan).contains(Pass::Contrast) <==> plan.contrast,
        forall|i: int, j: int|
            0 <= i < j < passes_spec(plan).len() ==> {
                ||| passes_spec(plan)[i] == Pass::Shift && passes_spec(plan)[j] != Pass::Shift
                ||| #[trigger] passes_spec(plan)[i] == Pass::Feather
                    && #[trigger] passes_spec(plan)[j] == Pass::Contrast
            },
{
    let p = passes_spec(plan);
    if plan.axis > 0 || plan.diagonal > 0 {
        assert(p[0] == Pass::Shift);
    }
    if plan.feather {
        let at = if plan.axis > 0 || plan.diagonal > 0 {
            1int
        } else {
            0
        };
        assert(p[at] == Pass::Feather);
    }
    if plan.contrast {
        assert(p[p.len() - 1] == Pass::Contrast);
    }
}

/// Offsets add up one by one.
pub proof fn offsets_add_up(offsets: Seq<u32>, offset: u32)
    ensures
        total(Seq::empty()) == 0,
        total(offsets.push(offset)) == total(offsets) + offset,
{
    assert(offsets.push(offset).drop_last() =~= offsets);
}

/// The controls read as far as Shift edge and Feather do one after the other:
/// an axis run and two diagonal runs, and the kernel with two cells beside it
/// while Feather is on.
pub proof fn the_reach_is_that_of_both_controls(plan: Plan)
    ensures
        plan.shift_reach_spec() == plan.axis + plan.diagonal + plan.diagonal,
        plan.feather ==> plan.feather_reach_spec() == (plan.radius_cells + 1 + 1) * plan.step,
        !plan.feather ==> plan.feather_reach_spec() == 0,
        plan.reach_spec() == plan.shift_reach_spec() + plan.feather_reach_spec(),
{
}

} // verus!
