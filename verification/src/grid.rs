//! The grid of cells a filter works on: cells of `step` pixels square, laid
//! on the pixel grid of the WHOLE picture at the scale of the render and not
//! on the grid of the window that is being rendered, so a zoomed window and
//! the full render hold the same cells.
//!
//! Everything here is one axis at a time. A render begins at `origin` on the
//! whole picture and is `size` pixels long.

use vstd::prelude::*;

verus! {

/// A coordinate held inside a side of so many pixels.
pub open spec fn inside(v: int, side: int) -> int {
    if v < 0 {
        0
    } else if v >= side {
        side - 1
    } else {
        v
    }
}

/// The first cell of a span of pixels and how many cells it touches. A span
/// of no pixels touches the cell it begins in.
pub open spec fn cells_touched(origin: int, size: int, step: int) -> (int, int) {
    let first = origin / step;
    let last = (origin + (if size > 1 {
        size
    } else {
        1
    }) - 1) / step;
    (first, last - first + 1)
}

/// The first cell of a render on an axis and how many it touches.
pub fn touched(origin: u32, size: u32, step: u32) -> (r: (u32, u32))
    requires
        step > 0,
        origin + size <= u32::MAX,
    ensures
        (r.0 as int, r.1 as int) == cells_touched(origin as int, size as int, step as int),
{
    let end: u32 = if size > 1 {
        origin + (size - 1)
    } else {
        origin
    };
    let first: u32 = origin / step;
    let last: u32 = end / step;
    proof {
        vstd::arithmetic::div_mod::lemma_div_is_ordered(origin as int, end as int, step as int);
        let span: int = if size > 1 {
            size as int
        } else {
            1
        };
        assert(last - first + 1 <= u32::MAX) by (nonlinear_arith)
            requires
                step > 0,
                last == end / step,
                first == origin / step,
                end == origin + span - 1,
                origin + size <= u32::MAX,
                span <= size || span == 1,
                size >= 0,
        ;
    }
    (first, last - first + 1)
}

/// The pixels of the render inside its `cell`th cell, from the first up to
/// the one past the last.
pub fn span(cell: u32, origin: u32, size: u32, step: u32) -> (r: (u32, u32))
    requires
        step > 0,
        origin + size <= u32::MAX,
        size > 0,
        cell < cells_touched(origin as int, size as int, step as int).1,
    ensures
        r.0 < r.1 <= size,
        forall|x: int|
            0 <= x < size ==> ((r.0 <= x < r.1) <==> #[trigger] ((origin + x) / (step as int)) == (
            origin as int) / (step as int) + cell),
{
    let first: u32 = origin / step;
    let ghost at = first + cell;
    proof {
        vstd::arithmetic::div_mod::lemma_fundamental_div_mod(origin as int, step as int);
        let last = (origin + size - 1) / (step as int);
        vstd::arithmetic::div_mod::lemma_fundamental_div_mod(origin + size - 1, step as int);
        assert(at <= last);
        assert(at * step <= origin + size - 1 && (at + 1) * step <= origin + size - 1 + step)
            by (nonlinear_arith)
            requires
                at <= last,
                step > 0,
                origin + size - 1 == step * last + (origin + size - 1) % (step as int),
                (origin + size - 1) % (step as int) >= 0,
        ;
        assert((at + 1) * step > origin) by (nonlinear_arith)
            requires
                at >= first,
                step > 0,
                origin == step * first + origin as int % step as int,
                0 <= origin as int % step as int,
                origin as int % (step as int) < step,
        ;
        assert(at * step >= 0) by (nonlinear_arith)
            requires
                at >= 0,
                step > 0,
        ;
        assert((at + 1) * step == at * step + step) by (nonlinear_arith);
        assert(at <= u32::MAX) by (nonlinear_arith)
            requires
                at * step <= u32::MAX,
                step >= 1,
                at >= 0,
        ;
    }
    let begins: u32 = (first + cell) * step;
    let ends: u64 = begins as u64 + step as u64;
    let low: u32 = if begins < origin {
        0
    } else {
        begins - origin
    };
    let high: u32 = if ends < (origin + size) as u64 {
        (ends - origin as u64) as u32
    } else {
        size
    };
    proof {
        assert forall|x: int| 0 <= x < size implies ((low <= x < high)
            <==> #[trigger] ((origin + x) / (step as int)) == (origin as int) / (step as int)
            + cell) by {
            let p = origin + x;
            let c = p / (step as int);
            vstd::arithmetic::div_mod::lemma_fundamental_div_mod(p, step as int);
            assert((c == at) <==> (at * step <= p < at * step + step)) by (nonlinear_arith)
                requires
                    p == step * c + p % (step as int),
                    0 <= p % (step as int) < step,
                    step > 0,
            ;
        }
    }
    (low, high)
}

/// The cell whose centre lies at or before the middle of a pixel, on the grid
/// of the whole picture; -1 for a pixel before the middle of the first cell.
pub open spec fn cell_before(pixel: int, step: int) -> int {
    (2 * pixel + 1 - step) / (2 * step)
}

/// The two cells of the render whose centres a pixel lies between, each held
/// inside the cells the render touches.
pub fn among(pixel: u32, origin: u32, size: u32, step: u32) -> (r: (u32, u32))
    requires
        0 < step,
        origin + size <= u32::MAX,
        pixel < size,
    ensures
        ({
            let (first, count) = cells_touched(origin as int, size as int, step as int);
            let low = cell_before(origin + pixel, step as int);
            &&& r.0 == inside(low - first, count)
            &&& r.1 == inside(low + 1 - first, count)
        }),
{
    let (first, count): (u32, u32) = touched(origin, size, step);
    let at: u64 = 2 * (origin as u64 + pixel as u64) + 1;
    // The cell after the one before it: never less than 0.
    let after: u64 = (at + step as u64) / (2 * step as u64);
    let (begin, many): (u64, u64) = (first as u64, count as u64);
    proof {
        let low = cell_before(origin + pixel, step as int);
        a_pixel_lies_in_its_cell(origin as int, size as int, step as int, pixel as int);
        assert(after == low + 1) by {
            vstd::arithmetic::div_mod::lemma_div_plus_one(
                2 * (origin + pixel) + 1 - step,
                2 * step as int,
            );
        }
    }
    let low: u32 = if after > begin {
        if after - 1 - begin < many {
            (after - 1 - begin) as u32
        } else {
            count - 1
        }
    } else {
        0
    };
    let high: u32 = if after >= begin {
        if after - begin < many {
            (after - begin) as u32
        } else {
            count - 1
        }
    } else {
        0
    };
    (low, high)
}

/// Every pixel of a render lies in one of the cells the render touches, and
/// that cell is the one it lies in on the whole picture.
pub proof fn a_pixel_lies_in_its_cell(origin: int, size: int, step: int, x: int)
    requires
        0 <= origin,
        0 < step,
        0 <= x < size,
    ensures
        ({
            let (first, count) = cells_touched(origin, size, step);
            let cell = (origin + x) / step;
            &&& first <= cell < first + count
            &&& cell * step <= origin + x < (cell + 1) * step
        }),
{
    vstd::arithmetic::div_mod::lemma_div_is_ordered(origin, origin + x, step);
    vstd::arithmetic::div_mod::lemma_div_is_ordered(origin + x, origin + size - 1, step);
    vstd::arithmetic::div_mod::lemma_fundamental_div_mod(origin + x, step);
    let cell = (origin + x) / step;
    assert(step * cell == cell * step && (cell + 1) * step == cell * step + step)
        by (nonlinear_arith);
}

/// A window reads the cells the full render reads: a pixel whose two cells
/// the window touches lies between the same two cells of the whole picture.
pub proof fn a_window_reads_the_cells_of_the_whole(
    origin: int,
    size: int,
    full: int,
    step: int,
    pixel: int,
)
    requires
        0 <= origin,
        0 <= pixel < size,
        origin + size <= full,
        0 < step,
        ({
            let (first, count) = cells_touched(origin, size, step);
            let low = cell_before(origin + pixel, step);
            first <= low && low + 1 < first + count
        }),
    ensures
        ({
            let (first, count) = cells_touched(origin, size, step);
            let (whole_first, whole_count) = cells_touched(0, full, step);
            let low = cell_before(origin + pixel, step);
            &&& inside(low - first, count) + first == inside(low - whole_first, whole_count)
            &&& inside(low + 1 - first, count) + first == inside(
                low + 1 - whole_first,
                whole_count,
            )
        }),
{
    vstd::arithmetic::div_mod::lemma_div_is_ordered(origin + size - 1, full - 1, step);
    assert(0int / step == 0) by (nonlinear_arith)
        requires
            step > 0,
    ;
    vstd::arithmetic::div_mod::lemma_div_is_ordered(0, origin, step);
}

/// The cells a render touches are no more than it needs: its first pixel lies
/// in the first of them and its last pixel in the last.
pub proof fn the_cells_touched_begin_and_end_with_the_render(origin: int, size: int, step: int)
    requires
        0 <= origin,
        0 < size,
        0 < step,
    ensures
        ({
            let (first, count) = cells_touched(origin, size, step);
            &&& count >= 1
            &&& first * step <= origin < (first + 1) * step
            &&& (first + count - 1) * step <= origin + size - 1 < (first + count) * step
        }),
{
    a_pixel_lies_in_its_cell(origin, size, step, 0);
    a_pixel_lies_in_its_cell(origin, size, step, size - 1);
}

/// A pixel lies between the middle of the cell before it and the middle of
/// the next.
pub proof fn a_pixel_lies_between_two_middles(pixel: int, step: int)
    requires
        0 < step,
    ensures
        (2 * cell_before(pixel, step) + 1) * step <= 2 * pixel + 1,
        2 * pixel + 1 < (2 * cell_before(pixel, step) + 3) * step,
{
    let c = cell_before(pixel, step);
    vstd::arithmetic::div_mod::lemma_fundamental_div_mod(2 * pixel + 1 - step, 2 * step);
    assert((2 * c + 1) * step <= 2 * pixel + 1 && 2 * pixel + 1 < (2 * c + 3) * step)
        by (nonlinear_arith)
        requires
            2 * pixel + 1 - step == (2 * step) * c + (2 * pixel + 1 - step) % (2 * step),
            0 <= (2 * pixel + 1 - step) % (2 * step) < 2 * step,
            step > 0,
    ;
}

/// A coordinate inside a side stays, and one outside is the nearest inside.
pub proof fn a_coordinate_is_held_to_the_nearest(v: int, side: int)
    requires
        0 < side,
    ensures
        0 <= v < side ==> inside(v, side) == v,
        v < 0 ==> inside(v, side) == 0,
        v >= side ==> inside(v, side) == side - 1,
{
}

} // verus!
