//! Dehaze by the dark channel prior: the square minimum filter the
//! transmission map is made with, the downsample the atmospheric light is
//! read from, and which of its pixels are the brightest.

use crate::edge::{at, place, pixel_of_place, place_is_inside};
use crate::num::Single;
use vstd::prelude::*;

verus! {

/// The long edge of the downsample the atmospheric light is read from.
pub const ATMOSPHERE_EDGE: u32 = 256;

/// Rounded up division.
pub open spec fn ceiling(a: int, b: int) -> int {
    (a + b - 1) / b
}

pub open spec fn shorter(width: u32, height: u32) -> u32 {
    if width < height {
        width
    } else {
        height
    }
}

/// The radius of the minimum filter for a render of this size, in pixels:
/// half of 0.015 of the short edge rounded up, and never under 1.
pub fn patch_radius(width: u32, height: u32) -> (r: i32)
    ensures
        r == if shorter(width, height) == 0 {
            1
        } else {
            ceiling(3 * shorter(width, height), 400)
        },
        r >= 1,
        400 * r >= 3 * width || 400 * r >= 3 * height,
        r > 1 ==> 400 * (r - 1) < 3 * width && 400 * (r - 1) < 3 * height,
{
    let short: u64 = if width < height {
        width as u64
    } else {
        height as u64
    };
    let radius: u64 = (3 * short + 399) / 400;
    if radius < 1 {
        1
    } else {
        radius as i32
    }
}

/// An image of a size: one value for each pixel, and at least one pixel.
pub open spec fn covers(source: Seq<Single>, size: (u32, u32)) -> bool {
    size.0 > 0 && size.1 > 0 && source.len() == size.0 * size.1
}

/// The value some steps away on an axis; past the edge it is the edge's.
pub open spec fn away(
    source: Seq<Single>,
    size: (u32, u32),
    x: int,
    y: int,
    across: bool,
    steps: int,
) -> Single {
    if across {
        source[place(x + steps, y, size)]
    } else {
        source[place(x, y + steps, size)]
    }
}

/// A value that is the least among those up to `radius` steps away on an
/// axis.
pub open spec fn least_along(
    value: Single,
    source: Seq<Single>,
    size: (u32, u32),
    x: int,
    y: int,
    across: bool,
    radius: int,
) -> bool {
    &&& exists|i: int|
        -radius <= i <= radius && value == #[trigger] away(source, size, x, y, across, i)
    &&& forall|i: int|
        -radius <= i <= radius ==> value.at_most(
            #[trigger] away(source, size, x, y, across, i),
        )
}

fn least(source: &Vec<Single>, size: (u32, u32), x: u32, y: u32, across: bool, radius: u32) -> (r:
    Single)
    requires
        covers(source@, size),
        x < size.0,
        y < size.1,
        forall|p: int| 0 <= p < source@.len() ==> !(#[trigger] source@[p]).is_nan_spec(),
    ensures
        least_along(r, source@, size, x as int, y as int, across, radius as int),
        !r.is_nan_spec(),
{
    let reach: i64 = radius as i64;
    let (cx, cy): (i64, i64) = (x as i64, y as i64);
    let count: usize = source.len();
    proof {
        place_is_inside(x - radius, y as int, size);
        place_is_inside(x as int, y - radius, size);
        assert(away(source@, size, x as int, y as int, across, -(radius as int)) == if across {
            source@[place(x - radius, y as int, size)]
        } else {
            source@[place(x as int, y - radius, size)]
        });
    }
    let mut value: Single = if across {
        source[at(cx - reach, cy, size)]
    } else {
        source[at(cx, cy - reach, size)]
    };
    let mut i: i64 = 1 - reach;
    while i <= reach
        invariant
            covers(source@, size),
            count == source@.len(),
            x < size.0,
            y < size.1,
            cx == x,
            cy == y,
            reach == radius,
            1 - reach <= i <= reach + 1,
            !value.is_nan_spec(),
            forall|p: int| 0 <= p < source@.len() ==> !(#[trigger] source@[p]).is_nan_spec(),
            exists|j: int|
                -reach <= j < i && value == #[trigger] away(
                    source@,
                    size,
                    x as int,
                    y as int,
                    across,
                    j,
                ),
            forall|j: int|
                -reach <= j < i ==> value.at_most(
                    #[trigger] away(source@, size, x as int, y as int, across, j),
                ),
        decreases reach + 1 - i,
    {
        proof {
            place_is_inside(x + i, y as int, size);
            place_is_inside(x as int, y + i, size);
        }
        let next: Single = if across {
            source[at(cx + i, cy, size)]
        } else {
            source[at(cx, cy + i, size)]
        };
        assert(next == away(source@, size, x as int, y as int, across, i as int));
        if next.is_below(value) {
            value = next;
        }
        i += 1;
    }
    value
}

/// One pass of the filter, along rows or down columns.
fn pass(source: &Vec<Single>, size: (u32, u32), across: bool, radius: u32) -> (r: Vec<Single>)
    requires
        covers(source@, size),
        forall|p: int| 0 <= p < source@.len() ==> !(#[trigger] source@[p]).is_nan_spec(),
    ensures
        covers(r@, size),
        forall|p: int| 0 <= p < r@.len() ==> !(#[trigger] r@[p]).is_nan_spec(),
        forall|x: int, y: int|
            0 <= x < size.0 && 0 <= y < size.1 ==> least_along(
                #[trigger] r@[place(x, y, size)],
                source@,
                size,
                x,
                y,
                across,
                radius as int,
            ),
{
    let mut out: Vec<Single> = Vec::new();
    let mut y: u32 = 0;
    while y < size.1
        invariant
            covers(source@, size),
            forall|p: int| 0 <= p < source@.len() ==> !(#[trigger] source@[p]).is_nan_spec(),
            0 <= y <= size.1,
            out@.len() == y * size.0,
            forall|p: int| 0 <= p < out@.len() ==> !(#[trigger] out@[p]).is_nan_spec(),
            forall|a: int, b: int|
                0 <= a < size.0 && 0 <= b < y ==> least_along(
                    #[trigger] out@[place(a, b, size)],
                    source@,
                    size,
                    a,
                    b,
                    across,
                    radius as int,
                ),
        decreases size.1 - y,
    {
        let mut x: u32 = 0;
        proof {
            assert(y * size.0 + size.0 == (y + 1) * size.0) by (nonlinear_arith);
        }
        while x < size.0
            invariant
                covers(source@, size),
                forall|p: int| 0 <= p < source@.len() ==> !(#[trigger] source@[p]).is_nan_spec(),
                0 <= y < size.1,
                0 <= x <= size.0,
                out@.len() == y * size.0 + x,
                forall|p: int| 0 <= p < out@.len() ==> !(#[trigger] out@[p]).is_nan_spec(),
                forall|a: int, b: int|
                    0 <= a < size.0 && 0 <= b < size.1 && (b < y || (b == y && a < x))
                        ==> least_along(
                        #[trigger] out@[place(a, b, size)],
                        source@,
                        size,
                        a,
                        b,
                        across,
                        radius as int,
                    ),
            decreases size.0 - x,
        {
            let ghost before = out@;
            out.push(least(source, size, x, y, across, radius));
            proof {
                assert forall|a: int, b: int|
                    0 <= a < size.0 && 0 <= b < size.1 && (b < y || (b == y && a
                        <= x)) implies least_along(
                    #[trigger] out@[place(a, b, size)],
                    source@,
                    size,
                    a,
                    b,
                    across,
                    radius as int,
                ) by {
                    if b < y || a < x {
                        assert(0 <= b * size.0 + a < y * size.0 + x) by (nonlinear_arith)
                            requires
                                0 <= a < size.0,
                                0 <= b,
                                b < y || (b == y && a < x),
                                0 <= x,
                        ;
                        assert(out@[place(a, b, size)] == before[place(a, b, size)]);
                    } else {
                        assert(a == x && b == y);
                    }
                }
            }
            x += 1;
        }
        y += 1;
    }
    assert(y * size.0 == size.0 * size.1) by (nonlinear_arith)
        requires
            y == size.1,
    ;
    out
}

/// A value that is the least of the square patch around a pixel.
pub open spec fn least_of_patch(
    value: Single,
    source: Seq<Single>,
    size: (u32, u32),
    x: int,
    y: int,
    radius: int,
) -> bool {
    &&& exists|i: int, j: int|
        -radius <= i <= radius && -radius <= j <= radius && value == #[trigger] source[place(
            x + i,
            y + j,
            size,
        )]
    &&& forall|i: int, j: int|
        -radius <= i <= radius && -radius <= j <= radius ==> value.at_most(
            #[trigger] source[place(x + i, y + j, size)],
        )
}

proof fn two_passes_make_the_patch(
    source: Seq<Single>,
    rows: Seq<Single>,
    value: Single,
    size: (u32, u32),
    x: int,
    y: int,
    radius: int,
)
    requires
        covers(source, size),
        0 <= radius,
        0 <= x < size.0,
        0 <= y < size.1,
        forall|a: int, b: int|
            0 <= a < size.0 && 0 <= b < size.1 ==> least_along(
                #[trigger] rows[place(a, b, size)],
                source,
                size,
                a,
                b,
                true,
                radius,
            ),
        least_along(value, rows, size, x, y, false, radius),
    ensures
        least_of_patch(value, source, size, x, y, radius),
{
    let j = choose|j: int|
        -radius <= j <= radius && value == #[trigger] away(rows, size, x, y, false, j);
    let row = crate::grid::inside(y + j, size.1 as int);
    assert(place(x, row, size) == place(x, y + j, size));
    assert(least_along(rows[place(x, row, size)], source, size, x, row, true, radius));
    let i = choose|i: int|
        -radius <= i <= radius && value == #[trigger] away(source, size, x, row, true, i);
    assert(place(x + i, row, size) == place(x + i, y + j, size));
    assert(value == source[place(x + i, y + j, size)]);
    assert forall|i: int, j: int|
        -radius <= i <= radius && -radius <= j <= radius implies value.at_most(
        #[trigger] source[place(x + i, y + j, size)],
    ) by {
        let row = crate::grid::inside(y + j, size.1 as int);
        assert(place(x, row, size) == place(x, y + j, size));
        assert(least_along(rows[place(x, row, size)], source, size, x, row, true, radius));
        assert(value.at_most(away(rows, size, x, y, false, j)));
        assert(rows[place(x, row, size)].at_most(away(source, size, x, row, true, i)));
        assert(place(x + i, row, size) == place(x + i, y + j, size));
    }
}

/// The largest finite number.
pub const LARGEST: u32 = 0x7f7f_ffff;

/// What a value counts as in a minimum that starts from the largest finite
/// number: that number for an infinity above it and for what is not a number.
pub open spec fn counted(value: Single) -> Single {
    if value.at_most(Single { bits: LARGEST }) {
        value
    } else {
        Single { bits: LARGEST }
    }
}

/// The values as they count in a minimum.
pub open spec fn counted_all(values: Seq<Single>) -> Seq<Single> {
    values.map_values(|value: Single| counted(value))
}

/// The value of one pixel of an image.
pub open spec fn pixel(source: Seq<Single>, width: u32, x: int, y: int) -> Single {
    source[y * width + x]
}

/// A value that is one of the image's own, from a pixel of the rectangle that
/// reaches so many pixels to both sides of (x, y), and is at most every number
/// of the image in that rectangle. Where the rectangle holds nothing but
/// infinities and what is not a number, it is the largest finite number.
pub open spec fn least_within(
    value: Single,
    source: Seq<Single>,
    width: u32,
    height: u32,
    x: int,
    y: int,
    reach_x: int,
    reach_y: int,
) -> bool {
    &&& forall|a: int, b: int|
        0 <= a < width && 0 <= b < height && x - reach_x <= a <= x + reach_x && y - reach_y <= b
            <= y + reach_y && !pixel(source, width, a, b).is_nan_spec() ==> value.at_most(
            #[trigger] pixel(source, width, a, b),
        )
    &&& {
        ||| exists|a: int, b: int|
            0 <= a < width && 0 <= b < height && x - reach_x <= a <= x + reach_x && y - reach_y <= b
                <= y + reach_y && value == #[trigger] pixel(source, width, a, b)
        ||| {
            &&& value.bits == 0x7f7f_ffff
            &&& forall|a: int, b: int|
                0 <= a < width && 0 <= b < height && x - reach_x <= a <= x + reach_x && y - reach_y
                    <= b <= y + reach_y ==> !(#[trigger] pixel(source, width, a, b)).finite()
        }
    }
}

/// The least along one axis is the least of a rectangle one pixel wide.
proof fn the_least_along_is_within(
    value: Single,
    source: Seq<Single>,
    size: (u32, u32),
    x: int,
    y: int,
    across: bool,
    radius: int,
)
    requires
        covers(source, size),
        0 <= x < size.0,
        0 <= y < size.1,
        0 <= radius,
        least_along(value, counted_all(source), size, x, y, across, radius),
    ensures
        across ==> least_within(value, source, size.0, size.1, x, y, radius, 0),
        !across ==> least_within(value, source, size.0, size.1, x, y, 0, radius),
{
    let values = counted_all(source);
    let (rx, ry) = if across {
        (radius, 0)
    } else {
        (0, radius)
    };
    assert forall|a: int, b: int|
        0 <= a < size.0 && 0 <= b < size.1 && x - rx <= a <= x + rx && y - ry <= b <= y
            + ry implies value.at_most(counted(#[trigger] pixel(source, size.0, a, b))) by {
        let i = if across {
            a - x
        } else {
            b - y
        };
        place_is_inside(a, b, size);
        assert(value.at_most(away(values, size, x, y, across, i)));
        assert(away(values, size, x, y, across, i) == values[place(a, b, size)]);
    }
    let i = choose|i: int|
        -radius <= i <= radius && value == #[trigger] away(values, size, x, y, across, i);
    let (a, b) = if across {
        (crate::grid::inside(x + i, size.0 as int), y)
    } else {
        (x, crate::grid::inside(y + i, size.1 as int))
    };
    place_is_inside(a, b, size);
    assert(value == counted(pixel(source, size.0, a, b)));
}

/// The least of a patch is the least of the square around the pixel.
proof fn the_least_of_a_patch_is_within(
    value: Single,
    source: Seq<Single>,
    size: (u32, u32),
    x: int,
    y: int,
    radius: int,
)
    requires
        covers(source, size),
        0 <= x < size.0,
        0 <= y < size.1,
        0 <= radius,
        least_of_patch(value, counted_all(source), size, x, y, radius),
    ensures
        least_within(value, source, size.0, size.1, x, y, radius, radius),
{
    let values = counted_all(source);
    assert forall|a: int, b: int|
        0 <= a < size.0 && 0 <= b < size.1 && x - radius <= a <= x + radius && y - radius <= b <= y
            + radius implies value.at_most(counted(#[trigger] pixel(source, size.0, a, b))) by {
        place_is_inside(a, b, size);
        assert(place(x + (a - x), y + (b - y), size) == place(a, b, size));
        assert(value.at_most(values[place(x + (a - x), y + (b - y), size)]));
    }
    let (i, j) = choose|i: int, j: int|
        -radius <= i <= radius && -radius <= j <= radius && value == #[trigger] values[place(
            x + i,
            y + j,
            size,
        )];
    let (a, b) = (
        crate::grid::inside(x + i, size.0 as int),
        crate::grid::inside(y + j, size.1 as int),
    );
    place_is_inside(a, b, size);
    assert(value == counted(pixel(source, size.0, a, b)));
}

/// Where every value of the image is a finite number, the least within a
/// reach of a pixel is a value of the image there, and no value of the image
/// there is below it.
pub proof fn the_least_is_a_value_of_the_image(
    value: Single,
    source: Seq<Single>,
    width: u32,
    height: u32,
    x: int,
    y: int,
    reach_x: int,
    reach_y: int,
)
    requires
        0 <= x < width,
        0 <= y < height,
        0 <= reach_x,
        0 <= reach_y,
        source.len() == width * height,
        forall|p: int| 0 <= p < source.len() ==> (#[trigger] source[p]).finite(),
        least_within(value, source, width, height, x, y, reach_x, reach_y),
    ensures
        value.finite(),
        exists|a: int, b: int|
            0 <= a < width && 0 <= b < height && x - reach_x <= a <= x + reach_x && y - reach_y <= b
                <= y + reach_y && value == #[trigger] pixel(source, width, a, b),
        forall|a: int, b: int|
            0 <= a < width && 0 <= b < height && x - reach_x <= a <= x + reach_x && y - reach_y <= b
                <= y + reach_y ==> value.at_most(#[trigger] pixel(source, width, a, b)),
{
    assert forall|a: int, b: int| 0 <= a < width && 0 <= b < height implies (
    #[trigger] pixel(source, width, a, b)).finite() by {
        place_is_inside(a, b, (width, height));
    }
    assert(pixel(source, width, x, y).finite());
}

/// A dark pixel darkens every pixel whose patch holds it.
pub proof fn a_dark_pixel_darkens_its_patch(
    value: Single,
    source: Seq<Single>,
    width: u32,
    height: u32,
    x: int,
    y: int,
    radius: int,
    dark_x: int,
    dark_y: int,
)
    requires
        0 <= dark_x < width && x - radius <= dark_x <= x + radius,
        0 <= dark_y < height && y - radius <= dark_y <= y + radius,
        !pixel(source, width, dark_x, dark_y).is_nan_spec(),
        least_within(value, source, width, height, x, y, radius, radius),
    ensures
        value.at_most(pixel(source, width, dark_x, dark_y)),
{
}

/// One pass of the minimum filter, along the rows or down the columns, clamped
/// at the edges: at each pixel the least of the values along the patch. What
/// is not a number is left out.
pub fn minimum_pass(
    source: &Vec<Single>,
    width: u32,
    height: u32,
    across: bool,
    radius: u32,
) -> (r: Vec<Single>)
    requires
        source@.len() == width * height,
    ensures
        r@.len() == source@.len(),
        forall|x: int, y: int|
            0 <= x < width && 0 <= y < height ==> least_along(
                #[trigger] r@[place(x, y, (width, height))],
                counted_all(source@),
                (width, height),
                x,
                y,
                across,
                radius as int,
            ),
        forall|x: int, y: int|
            0 <= x < width && 0 <= y < height ==> least_within(
                #[trigger] pixel(r@, width, x, y),
                source@,
                width,
                height,
                x,
                y,
                if across {
                    radius as int
                } else {
                    0
                },
                if across {
                    0
                } else {
                    radius as int
                },
            ),
{
    let size: (u32, u32) = (width, height);
    let ghost values = counted_all(source@);
    let mut held: Vec<Single> = Vec::new();
    let mut p: usize = 0;
    while p < source.len()
        invariant
            0 <= p <= source@.len(),
            held@.len() == p,
            values == counted_all(source@),
            forall|q: int| 0 <= q < p ==> held@[q] == values[q],
        decreases source.len() - p,
    {
        let value: Single = source[p];
        let most: Single = Single { bits: LARGEST };
        if value.is_at_most(most) {
            held.push(value);
        } else {
            held.push(most);
        }
        p += 1;
    }
    assert(held@ =~= values);
    if width == 0 || height == 0 {
        assert(source@.len() == 0) by (nonlinear_arith)
            requires
                source@.len() == width * height,
                width == 0 || height == 0,
        ;
        return held;
    }
    let out: Vec<Single> = pass(&held, size, across, radius);
    proof {
        assert forall|x: int, y: int| 0 <= x < width && 0 <= y < height implies least_within(
            #[trigger] pixel(out@, width, x, y),
            source@,
            width,
            height,
            x,
            y,
            if across {
                radius as int
            } else {
                0
            },
            if across {
                0
            } else {
                radius as int
            },
        ) by {
            assert(pixel(out@, width, x, y) == out@[place(x, y, size)]);
            the_least_along_is_within(
                out@[place(x, y, size)],
                source@,
                size,
                x,
                y,
                across,
                radius as int,
            );
        }
    }
    out
}

/// A square minimum filter, run as a row pass and a column pass, clamped at
/// the edges: at each pixel the least value of the patch around it. What is
/// not a number is left out.
pub fn minimum(source: &Vec<Single>, width: u32, height: u32, radius: u32) -> (r: Vec<Single>)
    requires
        source@.len() == width * height,
    ensures
        r@.len() == source@.len(),
        forall|x: int, y: int|
            0 <= x < width && 0 <= y < height ==> least_of_patch(
                #[trigger] r@[place(x, y, (width, height))],
                counted_all(source@),
                (width, height),
                x,
                y,
                radius as int,
            ),
        forall|x: int, y: int|
            0 <= x < width && 0 <= y < height ==> least_within(
                #[trigger] pixel(r@, width, x, y),
                source@,
                width,
                height,
                x,
                y,
                radius as int,
                radius as int,
            ),
{
    let ghost size = (width, height);
    let ghost values = counted_all(source@);
    let rows: Vec<Single> = minimum_pass(source, width, height, true, radius);
    let out: Vec<Single> = minimum_pass(&rows, width, height, false, radius);
    proof {
        assert forall|p: int| 0 <= p < rows@.len() implies counted(#[trigger] rows@[p])
            == rows@[p] by {
            assert(width > 0 && height > 0) by (nonlinear_arith)
                requires
                    0 <= p < width * height,
            ;
            pixel_of_place(p, size);
            let (x, y) = (p % (width as int), p / (width as int));
            assert(least_along(rows@[place(x, y, size)], values, size, x, y, true, radius as int));
            let i = choose|i: int|
                -radius <= i <= radius && rows@[p] == #[trigger] away(values, size, x, y, true, i);
            place_is_inside(x + i, y, size);
            assert(values[place(x + i, y, size)] == counted(source@[place(x + i, y, size)]));
        }
        assert(counted_all(rows@) =~= rows@);
        assert forall|x: int, y: int| 0 <= x < width && 0 <= y < height implies least_of_patch(
            #[trigger] out@[place(x, y, size)],
            values,
            size,
            x,
            y,
            radius as int,
        ) by {
            two_passes_make_the_patch(
                values,
                rows@,
                out@[place(x, y, size)],
                size,
                x,
                y,
                radius as int,
            );
        }
        assert forall|x: int, y: int| 0 <= x < width && 0 <= y < height implies least_within(
            #[trigger] pixel(out@, width, x, y),
            source@,
            width,
            height,
            x,
            y,
            radius as int,
            radius as int,
        ) by {
            assert(pixel(out@, width, x, y) == out@[place(x, y, size)]);
            the_least_of_a_patch_is_within(
                out@[place(x, y, size)],
                source@,
                size,
                x,
                y,
                radius as int,
            );
        }
    }
    out
}

/// Whether an 8-bit RGBA photo can be read: it has pixels, and four bytes for
/// each of them. The atmospheric light of one that cannot is white.
pub fn holds_a_photo(bytes: usize, width: u32, height: u32) -> (r: bool)
    ensures
        r == (width > 0 && height > 0 && bytes >= width * height * 4),
{
    proof {
        assert(width * height <= u32::MAX * u32::MAX) by (nonlinear_arith)
            requires
                0 <= width <= u32::MAX,
                0 <= height <= u32::MAX,
        ;
    }
    let pixels: u64 = (width as u64) * (height as u64);
    width != 0 && height != 0 && (pixels as u128) * 4 <= bytes as u128
}

/// The downsample of an image: how many pixels square a box is, and the size
/// in boxes.
#[derive(Clone, Copy, Debug, PartialEq, Eq, Structural)]
pub struct Downsample {
    pub factor: u32,
    pub width: u32,
    pub height: u32,
}

pub open spec fn longer(width: u32, height: u32) -> u32 {
    if width > height {
        width
    } else {
        height
    }
}

impl Downsample {
    /// The downsample of an image of this size, at most [`ATMOSPHERE_EDGE`]
    /// on its long edge.
    pub fn of(width: u32, height: u32) -> (r: Downsample)
        ensures
            r.factor >= 1,
            longer(width, height) > 0 ==> r.factor == ceiling(
                longer(width, height) as int,
                ATMOSPHERE_EDGE as int,
            ),
            longer(width, height) == 0 ==> r.factor == 1,
            r.width == ceiling(width as int, r.factor as int),
            r.height == ceiling(height as int, r.factor as int),
            r.width <= ATMOSPHERE_EDGE,
            r.height <= ATMOSPHERE_EDGE,
            r.width * r.factor >= width,
            r.height * r.factor >= height,
            width > 0 ==> (r.width - 1) * r.factor < width,
            height > 0 ==> (r.height - 1) * r.factor < height,
            r.factor > 1 ==> ATMOSPHERE_EDGE * (r.factor - 1) < width || ATMOSPHERE_EDGE * (
            r.factor - 1) < height,
    {
        let long: u32 = if width > height {
            width
        } else {
            height
        };
        let edge: u64 = ATMOSPHERE_EDGE as u64;
        let boxes: u32 = ((long as u64 + (edge - 1)) / edge) as u32;
        let factor: u32 = if boxes < 1 {
            1
        } else {
            boxes
        };
        assert(factor <= 0x0100_0000);
        proof {
            a_ceiling_is_bounded(width as int, factor as int, ATMOSPHERE_EDGE as int);
            a_ceiling_is_bounded(height as int, factor as int, ATMOSPHERE_EDGE as int);
            a_ceiling_is_the_least_that_covers(width as int, factor as int);
            a_ceiling_is_the_least_that_covers(height as int, factor as int);
        }
        let small_w: u32 = ((width as u64 + factor as u64 - 1) / factor as u64) as u32;
        let small_h: u32 = ((height as u64 + factor as u64 - 1) / factor as u64) as u32;
        Downsample { factor, width: small_w, height: small_h }
    }

    /// The pixels of one box along an axis, from the first up to the one past
    /// the last.
    pub fn span(&self, index: u32, side: u32) -> (r: (u32, u32))
        requires
            0 < self.factor,
            index < ceiling(side as int, self.factor as int),
        ensures
            r.0 < r.1 <= side,
            forall|x: int|
                0 <= x < side ==> ((r.0 <= x < r.1) <==> #[trigger] (x / (self.factor as int))
                    == index),
    {
        let ghost f = self.factor as int;
        proof {
            vstd::arithmetic::div_mod::lemma_fundamental_div_mod(side + f - 1, f);
            assert(index * f < side) by (nonlinear_arith)
                requires
                    index + 1 <= (side + f - 1) / f,
                    side + f - 1 == f * ((side + f - 1) / f) + (side + f - 1) % f,
                    (side + f - 1) % f >= 0,
                    f > 0,
            ;
            assert((index + 1) * f == index * f + f && index * f >= 0) by (nonlinear_arith)
                requires
                    index >= 0,
                    f > 0,
            ;
            assert(index <= index * f) by (nonlinear_arith)
                requires
                    index >= 0,
                    f >= 1,
            ;
        }
        let low: u32 = index * self.factor;
        let end: u64 = low as u64 + self.factor as u64;
        let high: u32 = if end < side as u64 {
            end as u32
        } else {
            side
        };
        proof {
            assert forall|x: int| 0 <= x < side implies ((low <= x < high)
                <==> #[trigger] (x / (self.factor as int)) == index) by {
                let c = x / f;
                vstd::arithmetic::div_mod::lemma_fundamental_div_mod(x, f);
                assert((c == index) <==> (index * f <= x < index * f + f)) by (nonlinear_arith)
                    requires
                        x == f * c + x % f,
                        0 <= x % f < f,
                        f > 0,
                ;
            }
        }
        (low, high)
    }
}

proof fn a_ceiling_is_bounded(side: int, factor: int, most: int)
    requires
        0 <= side,
        factor >= 1,
        most >= 1,
        side <= factor * most,
    ensures
        0 <= ceiling(side, factor) <= most,
{
    vstd::arithmetic::div_mod::lemma_fundamental_div_mod(side + factor - 1, factor);
    let q = (side + factor - 1) / factor;
    assert(0 <= q <= most) by (nonlinear_arith)
        requires
            side + factor - 1 == factor * q + (side + factor - 1) % factor,
            0 <= (side + factor - 1) % factor < factor,
            side <= factor * most,
            side >= 0,
            factor >= 1,
    ;
}

/// The order the brightest are taken in: the larger value first, and of two
/// as large the one that stands first.
pub open spec fn brighter(values: Seq<Single>, a: int, b: int) -> bool {
    values[a].total() > values[b].total() || (values[a].total() == values[b].total() && a < b)
}

/// The first `keep` places of the values sorted from the largest down, equal
/// ones in the order they stand in.
pub open spec fn are_brightest(places: Seq<usize>, values: Seq<Single>, keep: int) -> bool {
    &&& places.len() == keep
    &&& forall|i: int| 0 <= i < places.len() ==> 0 <= #[trigger] places[i] < values.len()
    &&& forall|i: int, j: int|
        0 <= i < j < places.len() ==> brighter(
            values,
            #[trigger] places[i] as int,
            #[trigger] places[j] as int,
        )
    &&& forall|i: int, p: int|
        0 <= i < places.len() && 0 <= p < values.len() && !places.contains(p as usize)
            ==> #[trigger] brighter(values, places[i] as int, p)
}

/// The place of the brightest of the values that are not taken yet.
fn next_brightest(values: &Vec<Single>, taken: &Vec<usize>) -> (r: usize)
    requires
        taken@.len() < values@.len(),
        exists|p: int| 0 <= p < values@.len() && !#[trigger] taken@.contains(p as usize),
    ensures
        r < values@.len(),
        !taken@.contains(r),
        forall|p: int|
            0 <= p < values@.len() && p != r && !taken@.contains(p as usize)
                ==> #[trigger] brighter(values@, r as int, p),
{
    let mut best: Option<usize> = None;
    let mut i: usize = 0;
    while i < values.len()
        invariant
            0 <= i <= values@.len(),
            best is None ==> forall|p: int|
                0 <= p < i ==> #[trigger] taken@.contains(p as usize),
            best matches Some(b) ==> b < i && !taken@.contains(b) && forall|p: int|
                0 <= p < i && p != b && !taken@.contains(p as usize) ==> #[trigger] brighter(
                    values@,
                    b as int,
                    p,
                ),
        decreases values.len() - i,
    {
        if !holds(taken, i) {
            match best {
                None => {
                    best = Some(i);
                },
                Some(b) => {
                    if values[b].precedes(values[i]) {
                        best = Some(i);
                        assert forall|p: int|
                            0 <= p < i && p != i && !taken@.contains(
                                p as usize,
                            ) implies #[trigger] brighter(values@, i as int, p) by {
                            assert(p == b || brighter(values@, b as int, p));
                        }
                    }
                },
            }
        }
        i += 1;
    }
    match best {
        Some(b) => b,
        None => 0,
    }
}

fn holds(places: &Vec<usize>, place: usize) -> (r: bool)
    ensures
        r == places@.contains(place),
{
    let mut i: usize = 0;
    while i < places.len()
        invariant
            0 <= i <= places@.len(),
            forall|j: int| 0 <= j < i ==> #[trigger] places@[j] != place,
        decreases places.len() - i,
    {
        if places[i] == place {
            return true;
        }
        i += 1;
    }
    false
}

/// Some place is not among fewer than all of them.
proof fn a_place_is_left(places: Seq<usize>, count: nat)
    requires
        places.len() < count,
        count <= usize::MAX,
    ensures
        exists|p: int| 0 <= p < count && !#[trigger] places.contains(p as usize),
{
    if forall|p: int| 0 <= p < count ==> #[trigger] places.contains(p as usize) {
        let all = Seq::new(count, |p: int| p as usize);
        assert(all.no_duplicates());
        assert(all.to_set().subset_of(places.to_set())) by {
            assert forall|v: usize| all.to_set().contains(v) implies places.to_set().contains(
                v,
            ) by {
                let p = choose|p: int| 0 <= p < all.len() && all[p] == v;
                assert(places.contains(p as usize));
            }
        }
        all.unique_seq_to_set();
        places.lemma_cardinality_of_set();
        vstd::set_lib::lemma_len_subset(all.to_set(), places.to_set());
        assert(false);
    }
}

/// The places of the brightest `keep` values, from the brightest down.
pub fn brightest(values: &Vec<Single>, keep: usize) -> (r: Vec<usize>)
    requires
        keep <= values@.len(),
    ensures
        are_brightest(r@, values@, keep as int),
{
    let count: usize = values.len();
    let mut places: Vec<usize> = Vec::new();
    while places.len() < keep
        invariant
            count == values@.len(),
            places@.len() <= keep <= values@.len(),
            are_brightest(places@, values@, places@.len() as int),
        decreases keep - places.len(),
    {
        proof {
            a_place_is_left(places@, values@.len());
        }
        let next: usize = next_brightest(values, &places);
        let ghost before = places@;
        places.push(next);
        proof {
            assert forall|p: int|
                0 <= p < values@.len() && !places@.contains(
                    p as usize,
                ) implies !#[trigger] before.contains(p as usize) && p != next by {
                if before.contains(p as usize) {
                    let j = choose|j: int| 0 <= j < before.len() && before[j] == p as usize;
                    assert(places@[j] == p as usize);
                }
                assert(places@[before.len() as int] == next);
            }
            assert forall|i: int, j: int| 0 <= i < j < places@.len() implies brighter(
                values@,
                #[trigger] places@[i] as int,
                #[trigger] places@[j] as int,
            ) by {
                if j < before.len() {
                    assert(brighter(values@, before[i] as int, before[j] as int));
                } else {
                    assert(!before.contains(next));
                    assert(brighter(values@, before[i] as int, next as int));
                }
            }
            assert forall|i: int, p: int|
                0 <= i < places@.len() && 0 <= p < values@.len() && !places@.contains(
                    p as usize,
                ) implies #[trigger] brighter(values@, places@[i] as int, p) by {
                if i < before.len() {
                    assert(brighter(values@, before[i] as int, p));
                }
            }
        }
    }
    places
}

/// A rounded up division is the least count that covers: so many boxes hold
/// the whole, and one fewer does not.
pub proof fn a_ceiling_is_the_least_that_covers(whole: int, part: int)
    requires
        0 <= whole,
        0 < part,
    ensures
        ceiling(whole, part) * part >= whole,
        (ceiling(whole, part) - 1) * part < whole,
{
    vstd::arithmetic::div_mod::lemma_fundamental_div_mod(whole + part - 1, part);
    let q = (whole + part - 1) / part;
    assert(q * part >= whole && (q - 1) * part < whole) by (nonlinear_arith)
        requires
            whole + part - 1 == part * q + (whole + part - 1) % part,
            0 <= (whole + part - 1) % part < part,
    ;
}

/// The brightest places hold the largest values, the largest first: a place
/// that is left out holds nothing above what was taken, and of two equal
/// values the one that stands first is taken first.
pub proof fn the_brightest_are_the_largest(
    places: Seq<usize>,
    values: Seq<Single>,
    keep: int,
    i: int,
    other: int,
)
    requires
        are_brightest(places, values, keep),
        0 <= i < keep,
        0 <= other < values.len(),
        values.len() <= usize::MAX,
        forall|j: int| 0 <= j <= i ==> #[trigger] places[j] != other,
    ensures
        places.len() == keep,
        0 <= places[i] < values.len(),
        !values[places[i] as int].below(values[other]),
        values[places[i] as int].total() >= values[other].total(),
        values[places[i] as int] == values[other] ==> places[i] < other,
{
    if places.contains(other as usize) {
        let j = choose|j: int| 0 <= j < places.len() && places[j] == other as usize;
        assert(brighter(values, places[i] as int, places[j] as int));
    } else {
        assert(brighter(values, places[i] as int, other));
    }
}

/// No place is taken twice.
pub proof fn the_brightest_are_apart(
    places: Seq<usize>,
    values: Seq<Single>,
    keep: int,
    i: int,
    j: int,
)
    requires
        are_brightest(places, values, keep),
        0 <= i < j < keep,
    ensures
        places[i] != places[j],
{
    assert(brighter(values, places[i] as int, places[j] as int));
}

} // verus!
