//! The look parameters: tone curves, the HSL mixer and the colour wheels.
//! Plain data; every type takes its neutral value by default.

use crate::num::{at_one, at_zero, held_is_in_range, Single, ONE, ZERO};
use vstd::prelude::*;

verus! {

/// The fewest control points a curve holds: the two end points.
pub const MIN_POINTS: usize = 2;

/// The most control points a curve holds.
pub const MAX_POINTS: usize = 16;

/// The number of hue ranges in the HSL mixer.
pub const HSL_RANGES: usize = 8;

pub open spec fn hsl_name_spec(index: int) -> Seq<char> {
    if index == 0 {
        "Red"@
    } else if index == 1 {
        "Orange"@
    } else if index == 2 {
        "Yellow"@
    } else if index == 3 {
        "Green"@
    } else if index == 4 {
        "Aqua"@
    } else if index == 5 {
        "Blue"@
    } else if index == 6 {
        "Purple"@
    } else {
        "Magenta"@
    }
}

/// The name of a hue range, in the order of `Look::hsl`.
pub fn hsl_name(index: usize) -> (r: &'static str)
    requires
        index < HSL_RANGES,
    ensures
        r@ == hsl_name_spec(index as int),
        index == 0 ==> r@ == "Red"@,
        index == 1 ==> r@ == "Orange"@,
        index == 2 ==> r@ == "Yellow"@,
        index == 3 ==> r@ == "Green"@,
        index == 4 ==> r@ == "Aqua"@,
        index == 5 ==> r@ == "Blue"@,
        index == 6 ==> r@ == "Purple"@,
        index == 7 ==> r@ == "Magenta"@,
{
    match index {
        0 => "Red",
        1 => "Orange",
        2 => "Yellow",
        3 => "Green",
        4 => "Aqua",
        5 => "Blue",
        6 => "Purple",
        _ => "Magenta",
    }
}

/// A control point of a curve.
#[derive(Clone, Copy, Debug)]
pub struct CurvePoint {
    pub x: Single,
    pub y: Single,
}

impl CurvePoint {
    pub open spec fn equals(self, other: CurvePoint) -> bool {
        self.x.equals(other.x) && self.y.equals(other.y)
    }

    pub open spec fn finite(self) -> bool {
        self.x.finite() && self.y.finite()
    }

    /// The point held to the square from 0 to 1.
    pub open spec fn held(self) -> CurvePoint {
        CurvePoint {
            x: self.x.held(Single { bits: ZERO }, Single { bits: ONE }),
            y: self.y.held(Single { bits: ZERO }, Single { bits: ONE }),
        }
    }

    fn clamped(self) -> (r: CurvePoint)
        ensures
            r == self.held(),
    {
        CurvePoint {
            x: self.x.clamped(Single { bits: ZERO }, Single { bits: ONE }),
            y: self.y.clamped(Single { bits: ZERO }, Single { bits: ONE }),
        }
    }
}

impl PartialEq for CurvePoint {
    fn eq(&self, other: &Self) -> (r: bool) {
        self.x == other.x && self.y == other.y
    }
}

impl vstd::std_specs::cmp::PartialEqSpecImpl for CurvePoint {
    open spec fn obeys_eq_spec() -> bool {
        true
    }

    open spec fn eq_spec(&self, other: &Self) -> bool {
        self.equals(*other)
    }
}

/// One tone curve: control points on the normalised ACEScct axis, where 0 is
/// black and 1 is diffuse white, sorted by x.
#[derive(Debug)]
pub struct Curve {
    pub points: Vec<CurvePoint>,
}

/// The point at the black end of the diagonal.
pub open spec fn black_end() -> CurvePoint {
    CurvePoint { x: Single { bits: ZERO }, y: Single { bits: ZERO } }
}

/// The point at the white end of the diagonal.
pub open spec fn white_end() -> CurvePoint {
    CurvePoint { x: Single { bits: ONE }, y: Single { bits: ONE } }
}

/// The points of the curve that changes nothing.
pub open spec fn diagonal() -> Seq<CurvePoint> {
    seq![black_end(), white_end()]
}

/// The finite points, each held to the square from 0 to 1, in list order.
pub open spec fn usable(points: Seq<CurvePoint>) -> Seq<CurvePoint>
    decreases points.len(),
{
    if points.len() == 0 {
        Seq::empty()
    } else {
        let rest = usable(points.drop_last());
        if points.last().finite() {
            rest.push(points.last().held())
        } else {
            rest
        }
    }
}

/// How many points of a list come before or with `x` in the order of x.
pub open spec fn not_after(points: Seq<CurvePoint>, x: Single) -> int
    decreases points.len(),
{
    if points.len() == 0 {
        0
    } else if points.last().x.total() <= x.total() {
        points.len() as int
    } else {
        not_after(points.drop_last(), x)
    }
}

/// The points by x, points with the same x in list order.
pub open spec fn by_x(points: Seq<CurvePoint>) -> Seq<CurvePoint>
    decreases points.len(),
{
    if points.len() == 0 {
        Seq::empty()
    } else {
        let rest = by_x(points.drop_last());
        rest.insert(not_after(rest, points.last().x), points.last())
    }
}

/// The points without those that repeat the x of the one before.
pub open spec fn without_repeats(points: Seq<CurvePoint>) -> Seq<CurvePoint>
    decreases points.len(),
{
    if points.len() == 0 {
        Seq::empty()
    } else {
        let rest = without_repeats(points.drop_last());
        if rest.len() > 0 && rest.last().x.equals(points.last().x) {
            rest
        } else {
            rest.push(points.last())
        }
    }
}

/// The points held to the count of a curve.
pub open spec fn counted(points: Seq<CurvePoint>) -> Seq<CurvePoint> {
    if points.len() < MIN_POINTS {
        diagonal()
    } else if points.len() > MAX_POINTS {
        points.take(MAX_POINTS - 1).push(points.last())
    } else {
        points
    }
}

/// The points of a curve made safe to interpolate.
pub open spec fn safe_points(points: Seq<CurvePoint>) -> Seq<CurvePoint> {
    counted(without_repeats(by_x(usable(points))))
}

/// Points a curve can be interpolated through: from 2 to 16 of them, each in
/// the square from 0 to 1, every x above the one before.
pub open spec fn interpolates(points: Seq<CurvePoint>) -> bool {
    &&& MIN_POINTS <= points.len() <= MAX_POINTS
    &&& forall|i: int| 0 <= i < points.len() ==> in_square(#[trigger] points[i])
    &&& forall|i: int, j: int|
        0 <= i < j < points.len() ==> (#[trigger] points[i]).x.below((#[trigger] points[j]).x)
}

/// Whether a point lies in the square from 0 to 1.
pub open spec fn in_square(point: CurvePoint) -> bool {
    &&& Single { bits: ZERO }.at_most(point.x) && point.x.at_most(Single { bits: ONE })
    &&& Single { bits: ZERO }.at_most(point.y) && point.y.at_most(Single { bits: ONE })
}

impl Curve {
    /// The same points to the bit.
    pub open spec fn copy_of(self, other: Curve) -> bool {
        self.points@ == other.points@
    }

    pub open spec fn equals(self, other: Curve) -> bool {
        &&& self.points@.len() == other.points@.len()
        &&& forall|i: int|
            0 <= i < self.points@.len() ==> (#[trigger] self.points@[i]).equals(other.points@[i])
    }

    pub open spec fn identity(self) -> bool {
        &&& self.points@.len() == 2
        &&& self.points@[0].equals(black_end())
        &&& self.points@[1].equals(white_end())
    }

    /// True for the default curve, the two end points and nothing else, so
    /// the lookup can be skipped. A curve with more points runs the lookup
    /// even when every point sits on the diagonal.
    pub fn is_identity(&self) -> (r: bool)
        ensures
            r == self.identity(),
    {
        self.points.len() == 2 && self.points[0] == (CurvePoint {
            x: Single { bits: ZERO },
            y: Single { bits: ZERO },
        }) && self.points[1] == (CurvePoint { x: Single { bits: ONE }, y: Single { bits: ONE } })
    }

    fn usable_points(&self) -> (r: Vec<CurvePoint>)
        ensures
            r@ == usable(self.points@),
    {
        let mut out: Vec<CurvePoint> = Vec::new();
        let mut i: usize = 0;
        while i < self.points.len()
            invariant
                0 <= i <= self.points@.len(),
                out@ == usable(self.points@.take(i as int)),
            decreases self.points.len() - i,
        {
            let point: CurvePoint = self.points[i];
            if point.x.is_finite() && point.y.is_finite() {
                out.push(point.clamped());
            }
            i += 1;
            assert(self.points@.take(i as int).drop_last() =~= self.points@.take(i - 1));
        }
        assert(self.points@.take(i as int) =~= self.points@);
        out
    }

    fn sorted(points: Vec<CurvePoint>) -> (r: Vec<CurvePoint>)
        ensures
            r@ == by_x(points@),
    {
        let mut out: Vec<CurvePoint> = Vec::new();
        let mut i: usize = 0;
        while i < points.len()
            invariant
                0 <= i <= points@.len(),
                out@ == by_x(points@.take(i as int)),
            decreases points.len() - i,
        {
            let point: CurvePoint = points[i];
            let mut at: usize = out.len();
            assert(out@.take(at as int) =~= out@);
            while at > 0 && point.x.precedes(out[at - 1].x)
                invariant
                    0 <= at <= out@.len(),
                    not_after(out@, point.x) == not_after(out@.take(at as int), point.x),
                decreases at,
            {
                at -= 1;
                assert(out@.take(at + 1).drop_last() =~= out@.take(at as int));
                assert(out@.take(at + 1).last() == out@[at as int]);
            }
            if at > 0 {
                assert(out@.take(at as int).last() == out@[at - 1]);
            }
            assert(not_after(out@, point.x) == at);
            out.insert(at, point);
            i += 1;
            assert(points@.take(i as int).drop_last() =~= points@.take(i - 1));
        }
        assert(points@.take(i as int) =~= points@);
        out
    }

    fn deduplicated(points: Vec<CurvePoint>) -> (r: Vec<CurvePoint>)
        ensures
            r@ == without_repeats(points@),
    {
        let mut out: Vec<CurvePoint> = Vec::new();
        let mut i: usize = 0;
        while i < points.len()
            invariant
                0 <= i <= points@.len(),
                out@ == without_repeats(points@.take(i as int)),
            decreases points.len() - i,
        {
            let point: CurvePoint = points[i];
            let repeats: bool = out.len() > 0 && out[out.len() - 1].x == point.x;
            if !repeats {
                out.push(point);
            }
            i += 1;
            assert(points@.take(i as int).drop_last() =~= points@.take(i - 1));
        }
        assert(points@.take(i as int) =~= points@);
        out
    }

    /// The curve made safe to interpolate: points that are not finite are
    /// dropped, the rest are clamped to 0 to 1 and sorted by x, a repeated x
    /// keeps its first point, and the count is held between [`MIN_POINTS`]
    /// and [`MAX_POINTS`]. A list left with fewer than two points becomes the
    /// identity; a list with too many keeps its first fifteen and its last.
    pub fn sanitised(&self) -> (r: Curve)
        ensures
            r.points@ == safe_points(self.points@),
            interpolates(r.points@),
            keeps_the_ends(r.points@, self.points@),
    {
        let mut points: Vec<CurvePoint> = Self::deduplicated(Self::sorted(self.usable_points()));
        proof {
            safe_points_interpolate(self.points@);
            safe_points_keep_the_ends(self.points@);
        }
        if points.len() < MIN_POINTS {
            return Curve::default();
        }
        if points.len() > MAX_POINTS {
            let last: CurvePoint = points[points.len() - 1];
            points.truncate(MAX_POINTS - 1);
            points.push(last);
        }
        assert(points@ =~= safe_points(self.points@));
        Curve { points }
    }
}

impl Clone for Curve {
    fn clone(&self) -> (r: Self)
        ensures
            r.copy_of(*self),
    {
        let points: Vec<CurvePoint> = self.points.clone();
        assert(points@ =~= self.points@);
        Curve { points }
    }
}

impl PartialEq for Curve {
    fn eq(&self, other: &Self) -> (r: bool) {
        self.points == other.points
    }
}

impl vstd::std_specs::cmp::PartialEqSpecImpl for Curve {
    open spec fn obeys_eq_spec() -> bool {
        true
    }

    open spec fn eq_spec(&self, other: &Self) -> bool {
        self.equals(*other)
    }
}

impl Default for Curve {
    fn default() -> (r: Self)
        ensures
            r.points@ == diagonal(),
    {
        let points: Vec<CurvePoint> = vec![
            CurvePoint { x: Single { bits: ZERO }, y: Single { bits: ZERO } },
            CurvePoint { x: Single { bits: ONE }, y: Single { bits: ONE } },
        ];
        assert(points@ =~= diagonal());
        Curve { points }
    }
}

/// Points in the order of x.
pub open spec fn ordered(points: Seq<CurvePoint>) -> bool {
    forall|i: int, j: int|
        0 <= i <= j < points.len() ==> (#[trigger] points[i]).x.total() <= (
        #[trigger] points[j]).x.total()
}

/// Every point lies in the square.
pub open spec fn all_in_square(points: Seq<CurvePoint>) -> bool {
    forall|i: int| 0 <= i < points.len() ==> in_square(#[trigger] points[i])
}

proof fn usable_is_in_square(points: Seq<CurvePoint>)
    ensures
        all_in_square(usable(points)),
    decreases points.len(),
{
    if points.len() > 0 {
        usable_is_in_square(points.drop_last());
        if points.last().finite() {
            held_is_in_range(points.last().x, Single { bits: ZERO }, Single { bits: ONE });
            held_is_in_range(points.last().y, Single { bits: ZERO }, Single { bits: ONE });
        }
    }
}

proof fn not_after_splits(points: Seq<CurvePoint>, x: Single)
    requires
        ordered(points),
    ensures
        0 <= not_after(points, x) <= points.len(),
        forall|i: int|
            0 <= i < not_after(points, x) ==> (#[trigger] points[i]).x.total() <= x.total(),
        forall|i: int|
            not_after(points, x) <= i < points.len() ==> x.total() < (
            #[trigger] points[i]).x.total(),
    decreases points.len(),
{
    if points.len() > 0 {
        let last = points[points.len() - 1];
        assert(points.last() == last);
        if last.x.total() > x.total() {
            let rest = points.drop_last();
            assert forall|i: int, j: int| 0 <= i <= j < rest.len() implies (
            #[trigger] rest[i]).x.total() <= (#[trigger] rest[j]).x.total() by {
                assert(points[i].x.total() <= points[j].x.total());
            }
            not_after_splits(rest, x);
            assert forall|i: int| 0 <= i < not_after(points, x) implies (
            #[trigger] points[i]).x.total() <= x.total() by {
                assert(rest[i] == points[i]);
            }
            assert forall|i: int| not_after(points, x) <= i < points.len() implies x.total() < (
            #[trigger] points[i]).x.total() by {
                if i < rest.len() {
                    assert(rest[i] == points[i]);
                }
            }
        }
    }
}

/// The points of a list with one x, in list order.
pub open spec fn at_x(points: Seq<CurvePoint>, x: Single) -> Seq<CurvePoint> {
    points.filter(|p: CurvePoint| p.x.total() == x.total())
}

/// Sorting by x gives the same points in the order of x, those with the same
/// x in list order.
pub proof fn by_x_sorts_the_points(points: Seq<CurvePoint>)
    ensures
        ordered(by_x(points)),
        by_x(points).to_multiset() == points.to_multiset(),
        forall|x: Single| at_x(by_x(points), x) == #[trigger] at_x(points, x),
{
    by_x_is_ordered(points);
    assert forall|x: Single| at_x(by_x(points), x) == #[trigger] at_x(points, x) by {
        by_x_is_stable(points, x);
    }
}

proof fn by_x_is_stable(points: Seq<CurvePoint>, x: Single)
    ensures
        at_x(by_x(points), x) == at_x(points, x),
    decreases points.len(),
{
    let same = |p: CurvePoint| p.x.total() == x.total();
    if points.len() > 0 {
        let last = points.last();
        let rest = by_x(points.drop_last());
        by_x_is_ordered(points.drop_last());
        by_x_is_stable(points.drop_last(), x);
        not_after_splits(rest, last.x);
        let at = not_after(rest, last.x);
        let (front, back) = (rest.take(at), rest.skip(at));
        assert(rest =~= front + back);
        assert(by_x(points) =~= front.push(last) + back);
        Seq::filter_distributes_over_add(front, back, same);
        Seq::filter_distributes_over_add(front.push(last), back, same);
        assert(front.push(last).drop_last() =~= front);
        assert(front.push(last).filter(same) == if same(last) {
            front.filter(same).push(last)
        } else {
            front.filter(same)
        }) by {
            reveal(Seq::filter);
        }
        assert(points.filter(same) == if same(last) {
            points.drop_last().filter(same).push(last)
        } else {
            points.drop_last().filter(same)
        }) by {
            reveal(Seq::filter);
        }
        if same(last) {
            assert forall|i: int| 0 <= i < back.len() implies !same(#[trigger] back[i]) by {
                assert(back[i] == rest[at + i]);
            }
            nothing_is_filtered(back, same);
            assert(front.filter(same) + Seq::<CurvePoint>::empty() =~= front.filter(same));
        }
        assert(by_x(points).filter(same) =~= points.filter(same));
    } else {
        assert(by_x(points) =~= points);
    }
}

proof fn nothing_is_filtered(points: Seq<CurvePoint>, keeps: spec_fn(CurvePoint) -> bool)
    requires
        forall|i: int| 0 <= i < points.len() ==> !keeps(#[trigger] points[i]),
    ensures
        points.filter(keeps) == Seq::<CurvePoint>::empty(),
    decreases points.len(),
{
    reveal(Seq::filter);
    if points.len() > 0 {
        let rest = points.drop_last();
        assert forall|i: int| 0 <= i < rest.len() implies !keeps(#[trigger] rest[i]) by {
            assert(rest[i] == points[i]);
        }
        nothing_is_filtered(rest, keeps);
        assert(!keeps(points[points.len() - 1]));
    }
}

proof fn by_x_is_ordered(points: Seq<CurvePoint>)
    ensures
        ordered(by_x(points)),
        all_in_square(points) ==> all_in_square(by_x(points)),
        by_x(points).len() == points.len(),
        by_x(points).to_multiset() == points.to_multiset(),
    decreases points.len(),
{
    broadcast use vstd::seq_lib::group_to_multiset_ensures;

    if points.len() > 0 {
        let rest = by_x(points.drop_last());
        by_x_is_ordered(points.drop_last());
        not_after_splits(rest, points.last().x);
        assert(points =~= points.drop_last().push(points.last()));
        assert(by_x(points).to_multiset() == rest.to_multiset().insert(points.last()));
    }
}

/// The points of `points` that keep their x apart from the one before keep
/// the order, strictly.
proof fn without_repeats_is_strict(points: Seq<CurvePoint>)
    requires
        ordered(points),
        all_in_square(points),
    ensures
        all_in_square(without_repeats(points)),
        without_repeats(points).len() <= points.len(),
        points.len() > 0 ==> without_repeats(points).len() > 0 && without_repeats(
            points,
        ).last().x.equals(points.last().x) && without_repeats(points)[0] == points[0],
        forall|i: int|
            0 <= i < without_repeats(points).len() ==> points.contains(
                #[trigger] without_repeats(points)[i],
            ),
        forall|i: int, j: int|
            0 <= i < j < without_repeats(points).len() ==> (#[trigger] without_repeats(
                points,
            )[i]).x.below((#[trigger] without_repeats(points)[j]).x),
    decreases points.len(),
{
    if points.len() > 0 {
        let before = points.drop_last();
        without_repeats_is_strict(before);
        let rest = without_repeats(before);
        assert(points.last() == points[points.len() - 1]);
        assert(in_square(points[points.len() - 1]));
        assert forall|i: int| 0 <= i < without_repeats(points).len() implies points.contains(
            #[trigger] without_repeats(points)[i],
        ) by {
            if i < rest.len() {
                assert(before.contains(rest[i]));
                let k = choose|k: int| 0 <= k < before.len() && before[k] == rest[i];
                assert(points[k] == rest[i]);
            } else {
                assert(points[points.len() - 1] == points.last());
            }
        }
        if before.len() > 0 {
            assert(before[0] == points[0]);
            assert(points[points.len() - 2].x.total() <= points.last().x.total());
            assert(before.last() == points[points.len() - 2]);
            assert(rest.last().x.at_most(points.last().x));
            if !rest.last().x.equals(points.last().x) {
                assert forall|i: int, j: int|
                    0 <= i < j < rest.push(points.last()).len() implies (#[trigger] rest.push(
                    points.last(),
                )[i]).x.below((#[trigger] rest.push(points.last())[j]).x) by {
                    if j == rest.len() {
                        if i < rest.len() - 1 {
                            assert(rest[i].x.below(rest[rest.len() - 1].x));
                        }
                    } else {
                        assert(rest[i].x.below(rest[j].x));
                    }
                }
            }
        }
    }
}

/// Any list of points becomes one a curve can be interpolated through.
pub proof fn safe_points_interpolate(points: Seq<CurvePoint>)
    ensures
        interpolates(safe_points(points)),
{
    usable_is_in_square(points);
    by_x_is_ordered(usable(points));
    let kept = without_repeats(by_x(usable(points)));
    without_repeats_is_strict(by_x(usable(points)));
    if kept.len() > MAX_POINTS {
        let cut = kept.take(MAX_POINTS - 1).push(kept.last());
        assert forall|i: int| 0 <= i < cut.len() implies in_square(#[trigger] cut[i]) by {
            if i == cut.len() - 1 {
                assert(cut[i] == kept[kept.len() - 1]);
            } else {
                assert(cut[i] == kept[i]);
            }
        }
        assert forall|i: int, j: int| 0 <= i < j < cut.len() implies (#[trigger] cut[i]).x.below(
            (#[trigger] cut[j]).x,
        ) by {
            let k = if j == cut.len() - 1 {
                kept.len() - 1
            } else {
                j
            };
            assert(kept[i].x.below(kept[k].x));
        }
    } else if kept.len() >= MIN_POINTS {
    }
}

/// Whether two points of a list stand at different places of the axis.
pub open spec fn spreads(points: Seq<CurvePoint>) -> bool {
    exists|i: int, j: int|
        0 <= i < points.len() && 0 <= j < points.len() && !(#[trigger] points[i]).x.equals(
            (#[trigger] points[j]).x,
        )
}

/// A curve reaches as far as its usable points do: where two of them stand
/// apart, the first of the curve is one with the least x and the last is one
/// with the greatest, else the curve is the one that changes nothing.
pub open spec fn keeps_the_ends(curve: Seq<CurvePoint>, points: Seq<CurvePoint>) -> bool {
    let usable = usable(points);
    if spreads(usable) {
        &&& usable.contains(curve[0])
        &&& usable.contains(curve.last())
        &&& forall|i: int|
            0 <= i < usable.len() ==> curve[0].x.at_most((#[trigger] usable[i]).x)
                && usable[i].x.at_most(curve.last().x)
    } else {
        curve == diagonal()
    }
}

/// The ends of a curve made safe are the ends of its usable points.
pub proof fn safe_points_keep_the_ends(points: Seq<CurvePoint>)
    ensures
        keeps_the_ends(safe_points(points), points),
{
    broadcast use vstd::seq_lib::group_to_multiset_ensures;

    let list = usable(points);
    let sorted = by_x(list);
    let kept = without_repeats(sorted);
    let curve = safe_points(points);
    usable_is_in_square(points);
    by_x_is_ordered(list);
    without_repeats_is_strict(sorted);
    assert forall|p: CurvePoint| sorted.contains(p) == #[trigger] list.contains(p) by {
        assert(sorted.contains(p) == (sorted.to_multiset().count(p) > 0));
        assert(list.contains(p) == (list.to_multiset().count(p) > 0));
    }
    if list.len() > 0 {
        let last = sorted[sorted.len() - 1];
        assert(sorted.last() == last);
        assert(kept.last() == kept[kept.len() - 1]);
        assert(in_square(sorted[0]) && in_square(last));
        assert forall|i: int| 0 <= i < list.len() implies kept[0].x.at_most(
            (#[trigger] list[i]).x,
        ) && list[i].x.at_most(kept.last().x) by {
            assert(list.contains(list[i]));
            assert(sorted.contains(list[i]));
            let k = choose|k: int| 0 <= k < sorted.len() && sorted[k] == list[i];
            assert(sorted[0].x.total() <= sorted[k].x.total());
            assert(sorted[k].x.total() <= last.x.total());
            assert(in_square(sorted[k]));
        }
        assert(sorted.contains(kept[0]) && sorted.contains(kept[kept.len() - 1]));
        if kept.len() == 1 {
            assert forall|i: int, j: int| 0 <= i < list.len() && 0 <= j < list.len() implies (
            #[trigger] list[i]).x.equals((#[trigger] list[j]).x) by {
                assert(kept[0].x.at_most(list[i].x) && list[i].x.at_most(kept.last().x));
                assert(kept[0].x.at_most(list[j].x) && list[j].x.at_most(kept.last().x));
            }
        } else {
            assert(kept[0].x.below(kept[kept.len() - 1].x));
            assert(list.contains(kept[0]) && list.contains(kept[kept.len() - 1]));
            let i = choose|i: int| 0 <= i < list.len() && list[i] == kept[0];
            let j = choose|j: int| 0 <= j < list.len() && list[j] == kept[kept.len() - 1];
            assert(!list[i].x.equals(list[j].x));
            assert(curve[0] == kept[0] && curve.last() == kept.last());
        }
    } else {
        assert(kept.len() == 0);
    }
}

proof fn usable_of_safe(points: Seq<CurvePoint>)
    requires
        all_in_square(points),
    ensures
        usable(points) == points,
    decreases points.len(),
{
    if points.len() > 0 {
        usable_of_safe(points.drop_last());
        assert(in_square(points[points.len() - 1]));
        assert(points.drop_last().push(points.last()) =~= points);
    } else {
        assert(usable(points) =~= points);
    }
}

proof fn by_x_of_ordered(points: Seq<CurvePoint>)
    requires
        ordered(points),
    ensures
        by_x(points) == points,
    decreases points.len(),
{
    if points.len() > 0 {
        let rest = points.drop_last();
        by_x_of_ordered(rest);
        if rest.len() > 0 {
            assert(rest.last() == points[points.len() - 2]);
        }
        assert(not_after(rest, points.last().x) == rest.len());
        assert(rest.insert(rest.len() as int, points.last()) =~= points);
    } else {
        assert(by_x(points) =~= points);
    }
}

proof fn without_repeats_of_strict(points: Seq<CurvePoint>)
    requires
        forall|i: int, j: int|
            0 <= i < j < points.len() ==> (#[trigger] points[i]).x.below((#[trigger] points[j]).x),
    ensures
        without_repeats(points) == points,
    decreases points.len(),
{
    if points.len() > 0 {
        let rest = points.drop_last();
        without_repeats_of_strict(rest);
        if rest.len() > 0 {
            assert(rest.last() == points[points.len() - 2]);
            assert(points[points.len() - 2].x.below(points[points.len() - 1].x));
        }
        assert(rest.push(points.last()) =~= points);
    } else {
        assert(without_repeats(points) =~= points);
    }
}

/// A curve that can be interpolated is left as it is, so sanitising twice
/// changes nothing.
pub proof fn sanitising_keeps_a_safe_curve(points: Seq<CurvePoint>)
    requires
        interpolates(points),
    ensures
        safe_points(points) == points,
{
    usable_of_safe(points);
    assert forall|i: int, j: int| 0 <= i <= j < points.len() implies (
    #[trigger] points[i]).x.total() <= (#[trigger] points[j]).x.total() by {
        if i < j {
            assert(points[i].x.below(points[j].x));
        }
    }
    by_x_of_ordered(points);
    without_repeats_of_strict(points);
}

/// Sanitising twice is sanitising once.
pub proof fn sanitising_twice_changes_nothing(points: Seq<CurvePoint>)
    ensures
        safe_points(safe_points(points)) == safe_points(points),
{
    safe_points_interpolate(points);
    sanitising_keeps_a_safe_curve(safe_points(points));
}

/// The four tone curves. A channel curve runs first, then the master.
#[derive(Debug)]
pub struct ToneCurves {
    pub master: Curve,
    pub red: Curve,
    pub green: Curve,
    pub blue: Curve,
}

impl ToneCurves {
    pub open spec fn copy_of(self, other: ToneCurves) -> bool {
        &&& self.master.copy_of(other.master)
        &&& self.red.copy_of(other.red)
        &&& self.green.copy_of(other.green)
        &&& self.blue.copy_of(other.blue)
    }

    pub open spec fn equals(self, other: ToneCurves) -> bool {
        &&& self.master.equals(other.master)
        &&& self.red.equals(other.red)
        &&& self.green.equals(other.green)
        &&& self.blue.equals(other.blue)
    }

    pub open spec fn identity(self) -> bool {
        self.master.identity() && self.red.identity() && self.green.identity()
            && self.blue.identity()
    }

    pub fn is_identity(&self) -> (r: bool)
        ensures
            r == self.identity(),
    {
        self.master.is_identity() && self.red.is_identity() && self.green.is_identity()
            && self.blue.is_identity()
    }
}

impl Clone for ToneCurves {
    fn clone(&self) -> (r: Self)
        ensures
            r.copy_of(*self),
    {
        ToneCurves {
            master: self.master.clone(),
            red: self.red.clone(),
            green: self.green.clone(),
            blue: self.blue.clone(),
        }
    }
}

impl PartialEq for ToneCurves {
    fn eq(&self, other: &Self) -> (r: bool) {
        self.master == other.master && self.red == other.red && self.green == other.green
            && self.blue == other.blue
    }
}

impl vstd::std_specs::cmp::PartialEqSpecImpl for ToneCurves {
    open spec fn obeys_eq_spec() -> bool {
        true
    }

    open spec fn eq_spec(&self, other: &Self) -> bool {
        self.equals(*other)
    }
}

impl Default for ToneCurves {
    fn default() -> (r: Self)
        ensures
            r.identity(),
            r.master.points@ == diagonal(),
            r.red.points@ == diagonal(),
            r.green.points@ == diagonal(),
            r.blue.points@ == diagonal(),
    {
        ToneCurves {
            master: Curve::default(),
            red: Curve::default(),
            green: Curve::default(),
            blue: Curve::default(),
        }
    }
}

/// One hue range of the mixer. Each field runs from -100 to 100.
#[derive(Clone, Copy, Debug)]
pub struct HslRange {
    pub hue: Single,
    pub saturation: Single,
    pub luminance: Single,
}

impl HslRange {
    pub open spec fn neutral() -> HslRange {
        HslRange {
            hue: Single { bits: ZERO },
            saturation: Single { bits: ZERO },
            luminance: Single { bits: ZERO },
        }
    }

    pub open spec fn equals(self, other: HslRange) -> bool {
        &&& self.hue.equals(other.hue)
        &&& self.saturation.equals(other.saturation)
        &&& self.luminance.equals(other.luminance)
    }

    pub open spec fn identity(self) -> bool {
        self.equals(HslRange::neutral())
    }

    pub fn is_identity(&self) -> (r: bool)
        ensures
            r == self.identity(),
    {
        *self == HslRange::default()
    }
}

impl PartialEq for HslRange {
    fn eq(&self, other: &Self) -> (r: bool) {
        self.hue == other.hue && self.saturation == other.saturation && self.luminance
            == other.luminance
    }
}

impl vstd::std_specs::cmp::PartialEqSpecImpl for HslRange {
    open spec fn obeys_eq_spec() -> bool {
        true
    }

    open spec fn eq_spec(&self, other: &Self) -> bool {
        self.equals(*other)
    }
}

impl Default for HslRange {
    fn default() -> (r: Self)
        ensures
            r == HslRange::neutral(),
    {
        HslRange {
            hue: Single { bits: ZERO },
            saturation: Single { bits: ZERO },
            luminance: Single { bits: ZERO },
        }
    }
}

/// One colour wheel: a point on the unit disc and a luminance slider from
/// -100 to 100.
#[derive(Clone, Copy, Debug)]
pub struct Wheel {
    pub x: Single,
    pub y: Single,
    pub luminance: Single,
}

impl Wheel {
    pub open spec fn neutral() -> Wheel {
        Wheel {
            x: Single { bits: ZERO },
            y: Single { bits: ZERO },
            luminance: Single { bits: ZERO },
        }
    }

    pub open spec fn equals(self, other: Wheel) -> bool {
        &&& self.x.equals(other.x)
        &&& self.y.equals(other.y)
        &&& self.luminance.equals(other.luminance)
    }

    pub open spec fn identity(self) -> bool {
        self.equals(Wheel::neutral())
    }

    pub fn is_identity(&self) -> (r: bool)
        ensures
            r == self.identity(),
    {
        *self == Wheel::default()
    }
}

impl PartialEq for Wheel {
    fn eq(&self, other: &Self) -> (r: bool) {
        self.x == other.x && self.y == other.y && self.luminance == other.luminance
    }
}

impl vstd::std_specs::cmp::PartialEqSpecImpl for Wheel {
    open spec fn obeys_eq_spec() -> bool {
        true
    }

    open spec fn eq_spec(&self, other: &Self) -> bool {
        self.equals(*other)
    }
}

impl Default for Wheel {
    fn default() -> (r: Self)
        ensures
            r == Wheel::neutral(),
    {
        Wheel {
            x: Single { bits: ZERO },
            y: Single { bits: ZERO },
            luminance: Single { bits: ZERO },
        }
    }
}

/// The three wheels: shadows as lift, midtones as gamma, highlights as gain.
#[derive(Clone, Copy, Debug)]
pub struct Wheels {
    pub shadows: Wheel,
    pub midtones: Wheel,
    pub highlights: Wheel,
}

impl Wheels {
    pub open spec fn neutral() -> Wheels {
        Wheels {
            shadows: Wheel::neutral(),
            midtones: Wheel::neutral(),
            highlights: Wheel::neutral(),
        }
    }

    pub open spec fn equals(self, other: Wheels) -> bool {
        &&& self.shadows.equals(other.shadows)
        &&& self.midtones.equals(other.midtones)
        &&& self.highlights.equals(other.highlights)
    }

    pub open spec fn identity(self) -> bool {
        self.equals(Wheels::neutral())
    }

    pub fn is_identity(&self) -> (r: bool)
        ensures
            r == self.identity(),
    {
        *self == Wheels::default()
    }
}

impl PartialEq for Wheels {
    fn eq(&self, other: &Self) -> (r: bool) {
        self.shadows == other.shadows && self.midtones == other.midtones && self.highlights
            == other.highlights
    }
}

impl vstd::std_specs::cmp::PartialEqSpecImpl for Wheels {
    open spec fn obeys_eq_spec() -> bool {
        true
    }

    open spec fn eq_spec(&self, other: &Self) -> bool {
        self.equals(*other)
    }
}

impl Default for Wheels {
    fn default() -> (r: Self)
        ensures
            r == Wheels::neutral(),
    {
        Wheels {
            shadows: Wheel::default(),
            midtones: Wheel::default(),
            highlights: Wheel::default(),
        }
    }
}

/// Everything that runs in the ACEScct domain.
#[derive(Debug)]
pub struct Look {
    pub curves: ToneCurves,
    pub hsl: [HslRange; HSL_RANGES],
    pub wheels: Wheels,
}

impl Look {
    pub open spec fn copy_of(self, other: Look) -> bool {
        &&& self.curves.copy_of(other.curves)
        &&& self.hsl@ == other.hsl@
        &&& self.wheels == other.wheels
    }

    pub open spec fn equals(self, other: Look) -> bool {
        &&& self.curves.equals(other.curves)
        &&& forall|i: int|
            0 <= i < HSL_RANGES ==> (#[trigger] self.hsl@[i]).equals(other.hsl@[i])
        &&& self.wheels.equals(other.wheels)
    }

    pub open spec fn hsl_identity(self) -> bool {
        forall|i: int| 0 <= i < HSL_RANGES ==> (#[trigger] self.hsl@[i]).identity()
    }

    pub open spec fn identity(self) -> bool {
        self.curves.identity() && self.hsl_identity() && self.wheels.identity()
    }

    pub fn hsl_is_identity(&self) -> (r: bool)
        ensures
            r == self.hsl_identity(),
    {
        let mut i: usize = 0;
        while i < HSL_RANGES
            invariant
                0 <= i <= HSL_RANGES,
                forall|k: int| 0 <= k < i ==> (#[trigger] self.hsl@[k]).identity(),
            decreases HSL_RANGES - i,
        {
            if !self.hsl[i].is_identity() {
                assert(!self.hsl@[i as int].identity());
                return false;
            }
            i += 1;
        }
        true
    }

    pub fn is_identity(&self) -> (r: bool)
        ensures
            r == self.identity(),
    {
        self.curves.is_identity() && self.hsl_is_identity() && self.wheels.is_identity()
    }
}

impl Clone for Look {
    fn clone(&self) -> (r: Self)
        ensures
            r.copy_of(*self),
    {
        Look { curves: self.curves.clone(), hsl: self.hsl, wheels: self.wheels }
    }
}

impl PartialEq for Look {
    fn eq(&self, other: &Self) -> (r: bool) {
        if self.curves != other.curves || self.wheels != other.wheels {
            return false;
        }
        let mut i: usize = 0;
        while i < HSL_RANGES
            invariant
                0 <= i <= HSL_RANGES,
                forall|k: int| 0 <= k < i ==> (#[trigger] self.hsl@[k]).equals(other.hsl@[k]),
            decreases HSL_RANGES - i,
        {
            if self.hsl[i] != other.hsl[i] {
                assert(!self.hsl@[i as int].equals(other.hsl@[i as int]));
                return false;
            }
            i += 1;
        }
        true
    }
}

impl vstd::std_specs::cmp::PartialEqSpecImpl for Look {
    open spec fn obeys_eq_spec() -> bool {
        true
    }

    open spec fn eq_spec(&self, other: &Self) -> bool {
        self.equals(*other)
    }
}

impl Default for Look {
    fn default() -> (r: Self)
        ensures
            r.identity(),
            r.curves.master.points@ == diagonal(),
            r.curves.red.points@ == diagonal(),
            r.curves.green.points@ == diagonal(),
            r.curves.blue.points@ == diagonal(),
            forall|i: int| 0 <= i < HSL_RANGES ==> #[trigger] r.hsl@[i] == HslRange::neutral(),
            r.wheels == Wheels::neutral(),
    {
        let rest: HslRange = HslRange::default();
        Look {
            curves: ToneCurves::default(),
            hsl: [rest, rest, rest, rest, rest, rest, rest, rest],
            wheels: Wheels::default(),
        }
    }
}

/// Equality of curves is symmetric and transitive.
pub proof fn equal_curves(a: Curve, b: Curve, c: Curve)
    ensures
        a.equals(b) ==> b.equals(a),
        a.equals(b) && b.equals(c) ==> a.equals(c),
{
    if a.equals(b) {
        assert forall|i: int| 0 <= i < b.points@.len() implies (#[trigger] b.points@[i]).equals(
            a.points@[i],
        ) by {
            assert(a.points@[i].equals(b.points@[i]));
        }
        if b.equals(c) {
            assert forall|i: int| 0 <= i < a.points@.len() implies (
            #[trigger] a.points@[i]).equals(c.points@[i]) by {
                assert(b.points@[i].equals(c.points@[i]));
            }
        }
    }
}

/// Equality of looks is symmetric and transitive.
pub proof fn equal_looks(a: Look, b: Look, c: Look)
    ensures
        a.equals(b) ==> b.equals(a),
        a.equals(b) && b.equals(c) ==> a.equals(c),
{
    equal_curves(a.curves.master, b.curves.master, c.curves.master);
    equal_curves(a.curves.red, b.curves.red, c.curves.red);
    equal_curves(a.curves.green, b.curves.green, c.curves.green);
    equal_curves(a.curves.blue, b.curves.blue, c.curves.blue);
    if a.equals(b) {
        assert forall|i: int| 0 <= i < HSL_RANGES implies (#[trigger] b.hsl@[i]).equals(
            a.hsl@[i],
        ) by {
            assert(a.hsl@[i].equals(b.hsl@[i]));
        }
        if b.equals(c) {
            assert forall|i: int| 0 <= i < HSL_RANGES implies (#[trigger] a.hsl@[i]).equals(
                c.hsl@[i],
            ) by {
                assert(b.hsl@[i].equals(c.hsl@[i]));
            }
        }
    }
}

/// A curve changes nothing when it is the two ends of the diagonal, and only
/// then.
pub proof fn only_the_diagonal_changes_nothing(curve: Curve)
    ensures
        curve.identity() <==> curve.points@.len() == 2 && at_zero(curve.points@[0].x) && at_zero(
            curve.points@[0].y,
        ) && at_one(curve.points@[1].x) && at_one(curve.points@[1].y),
{
}

/// A hue range that was moved shows in the look: none of its three sliders is
/// left out.
pub proof fn a_moved_range_is_no_identity(look: Look, i: int)
    requires
        0 <= i < 8,
        !at_zero(look.hsl@[i].hue) || !at_zero(look.hsl@[i].saturation) || !at_zero(
            look.hsl@[i].luminance,
        ),
    ensures
        !look.hsl_identity(),
        !look.identity(),
{
    assert(!look.hsl@[i].identity());
}

/// A wheel that was moved shows in the look, in whichever of its three
/// numbers and whichever of the three wheels.
pub proof fn a_moved_wheel_is_no_identity(look: Look)
    requires
        ({
            let (s, m, h) = (look.wheels.shadows, look.wheels.midtones, look.wheels.highlights);
            ||| !at_zero(s.x) || !at_zero(s.y) || !at_zero(s.luminance)
            ||| !at_zero(m.x) || !at_zero(m.y) || !at_zero(m.luminance)
            ||| !at_zero(h.x) || !at_zero(h.y) || !at_zero(h.luminance)
        }),
    ensures
        !look.wheels.identity(),
        !look.identity(),
{
}

/// A curve that is not the diagonal shows in the look, whichever of the four
/// it is.
pub proof fn a_bent_curve_is_no_identity(look: Look)
    requires
        !look.curves.master.identity() || !look.curves.red.identity()
            || !look.curves.green.identity() || !look.curves.blue.identity(),
    ensures
        !look.curves.identity(),
        !look.identity(),
{
}

/// A look nobody moved changes nothing.
pub proof fn a_look_at_rest_is_the_identity(look: Look)
    requires
        look.curves.master.identity() && look.curves.red.identity(),
        look.curves.green.identity() && look.curves.blue.identity(),
        forall|i: int|
            0 <= i < 8 ==> at_zero((#[trigger] look.hsl@[i]).hue) && at_zero(
                look.hsl@[i].saturation,
            ) && at_zero(look.hsl@[i].luminance),
        at_zero(look.wheels.shadows.x) && at_zero(look.wheels.shadows.y) && at_zero(
            look.wheels.shadows.luminance,
        ),
        at_zero(look.wheels.midtones.x) && at_zero(look.wheels.midtones.y) && at_zero(
            look.wheels.midtones.luminance,
        ),
        at_zero(look.wheels.highlights.x) && at_zero(look.wheels.highlights.y) && at_zero(
            look.wheels.highlights.luminance,
        ),
    ensures
        look.identity(),
{
    assert forall|i: int| 0 <= i < HSL_RANGES implies (#[trigger] look.hsl@[i]).identity() by {
        assert(at_zero(look.hsl@[i].hue));
    }
}

/// Equal curves have as many points, and each point stands where the other's
/// does.
pub proof fn equal_curves_agree(a: Curve, b: Curve, i: int)
    requires
        a.equals(b),
        0 <= i < a.points@.len(),
    ensures
        a.points@.len() == b.points@.len(),
        a.points@[i].x.equals(b.points@[i].x) && a.points@[i].y.equals(b.points@[i].y),
{
    assert(a.points@[i].equals(b.points@[i]));
}

/// Equal looks agree in the four curves, in every number of the eight hue
/// ranges and in every number of the three wheels.
pub proof fn equal_looks_agree(a: Look, b: Look, i: int)
    requires
        a.equals(b),
        0 <= i < 8,
    ensures
        a.curves.master.equals(b.curves.master) && a.curves.red.equals(b.curves.red),
        a.curves.green.equals(b.curves.green) && a.curves.blue.equals(b.curves.blue),
        a.hsl@[i].hue.equals(b.hsl@[i].hue),
        a.hsl@[i].saturation.equals(b.hsl@[i].saturation),
        a.hsl@[i].luminance.equals(b.hsl@[i].luminance),
        a.wheels.shadows.x.equals(b.wheels.shadows.x),
        a.wheels.shadows.y.equals(b.wheels.shadows.y),
        a.wheels.shadows.luminance.equals(b.wheels.shadows.luminance),
        a.wheels.midtones.x.equals(b.wheels.midtones.x),
        a.wheels.midtones.y.equals(b.wheels.midtones.y),
        a.wheels.midtones.luminance.equals(b.wheels.midtones.luminance),
        a.wheels.highlights.x.equals(b.wheels.highlights.x),
        a.wheels.highlights.y.equals(b.wheels.highlights.y),
        a.wheels.highlights.luminance.equals(b.wheels.highlights.luminance),
{
    assert(a.hsl@[i].equals(b.hsl@[i]));
}

/// A copy of a look is the look: the same points, ranges and wheels to the
/// bit.
pub proof fn a_copied_look_is_the_look(a: Look, b: Look)
    requires
        a.copy_of(b),
    ensures
        a.curves.master.points@ == b.curves.master.points@,
        a.curves.red.points@ == b.curves.red.points@,
        a.curves.green.points@ == b.curves.green.points@,
        a.curves.blue.points@ == b.curves.blue.points@,
        a.hsl@ == b.hsl@,
        a.wheels == b.wheels,
{
}

/// A point that is not finite makes no difference to the curve: without it
/// the curve is the same.
pub proof fn a_point_that_is_not_finite_makes_no_difference(points: Seq<CurvePoint>, i: int)
    requires
        0 <= i < points.len(),
        !(points[i].x.finite() && points[i].y.finite()),
    ensures
        safe_points(points) == safe_points(points.remove(i)),
{
    usable_without(points, i);
}

proof fn usable_without(points: Seq<CurvePoint>, i: int)
    requires
        0 <= i < points.len(),
        !(points[i].x.finite() && points[i].y.finite()),
    ensures
        usable(points) == usable(points.remove(i)),
    decreases points.len(),
{
    let less = points.remove(i);
    if i < points.len() - 1 {
        assert(less.drop_last() =~= points.drop_last().remove(i));
        assert(less.last() == points.last());
        usable_without(points.drop_last(), i);
    } else {
        assert(less =~= points.drop_last());
    }
}

/// A number beside the axis from 0 to 1 stands for the end it is nearest to.
pub open spec fn on_axis(value: Single, held: Single) -> bool {
    &&& value.finite()
    &&& value.below(Single { bits: 0 }) ==> held.bits == 0
    &&& Single { bits: 0x3f80_0000 }.below(value) ==> held.bits == 0x3f80_0000
    &&& Single { bits: 0 }.at_most(value) && value.at_most(Single { bits: 0x3f80_0000 }) ==> held
        == value
}

/// A finite point outside the square counts as the point on the edge of the
/// square that is nearest to it, on each axis by itself.
pub proof fn a_point_outside_counts_as_one_on_the_edge(
    points: Seq<CurvePoint>,
    i: int,
    held: CurvePoint,
)
    requires
        0 <= i < points.len(),
        on_axis(points[i].x, held.x),
        on_axis(points[i].y, held.y),
    ensures
        safe_points(points) == safe_points(points.update(i, held)),
{
    usable_updated(points, i, held);
}

proof fn usable_updated(points: Seq<CurvePoint>, i: int, held: CurvePoint)
    requires
        0 <= i < points.len(),
        on_axis(points[i].x, held.x),
        on_axis(points[i].y, held.y),
    ensures
        usable(points) == usable(points.update(i, held)),
    decreases points.len(),
{
    let now = points.update(i, held);
    if i < points.len() - 1 {
        assert(now.drop_last() =~= points.drop_last().update(i, held));
        assert(now.last() == points.last());
        usable_updated(points.drop_last(), i, held);
    } else {
        assert(now.drop_last() =~= points.drop_last());
        assert(held.held() == points[i].held());
    }
}

/// Of points in the square and in the order of x, a curve with too many keeps
/// the first fifteen and the last.
pub proof fn a_curve_with_too_many_points_keeps_fifteen_and_the_last(
    points: Seq<CurvePoint>,
    k: int,
)
    requires
        points.len() > 16,
        forall|i: int| 0 <= i < points.len() ==> in_square(#[trigger] points[i]),
        forall|i: int, j: int|
            0 <= i < j < points.len() ==> (#[trigger] points[i]).x.below((#[trigger] points[j]).x),
        0 <= k < 15,
    ensures
        safe_points(points).len() == 16,
        safe_points(points)[k] == points[k],
        safe_points(points)[15] == points[points.len() - 1],
{
    usable_of_safe(points);
    assert forall|i: int, j: int| 0 <= i <= j < points.len() implies (
    #[trigger] points[i]).x.total() <= (#[trigger] points[j]).x.total() by {
        if i < j {
            assert(points[i].x.below(points[j].x));
        }
    }
    by_x_of_ordered(points);
    without_repeats_of_strict(points);
}

/// A point in the square is one with both numbers from 0 to 1.
pub proof fn the_square_goes_from_zero_to_one(point: CurvePoint)
    ensures
        in_square(point) <==> (point.x.bits <= 0x3f80_0000 || at_zero(point.x)) && (point.y.bits
            <= 0x3f80_0000 || at_zero(point.y)),
{
}

/// A curve of points in the square that has room for them loses no place on
/// the axis: each point of the list has a point of the curve over it.
pub proof fn a_curve_with_room_keeps_every_place(points: Seq<CurvePoint>, i: int)
    requires
        all_in_square(points),
        0 <= i < points.len(),
        points.len() <= 16,
        spreads(points),
    ensures
        exists|k: int|
            0 <= k < safe_points(points).len() && (#[trigger] safe_points(points)[k]).x.equals(
                points[i].x,
            ),
        forall|k: int|
            0 <= k < safe_points(points).len() ==> points.contains(
                #[trigger] safe_points(points)[k],
            ),
{
    broadcast use vstd::seq_lib::group_to_multiset_ensures;

    usable_of_safe(points);
    by_x_is_ordered(points);
    let sorted = by_x(points);
    let kept = without_repeats(sorted);
    assert forall|p: CurvePoint| sorted.contains(p) == #[trigger] points.contains(p) by {
        assert(sorted.contains(p) == (sorted.to_multiset().count(p) > 0));
        assert(points.contains(p) == (points.to_multiset().count(p) > 0));
    }
    without_repeats_is_strict(sorted);
    assert(points.contains(points[i]));
    let s = choose|s: int| 0 <= s < sorted.len() && sorted[s] == points[i];
    a_place_is_kept(sorted, s);
    if kept.len() < 2 {
        let (a, b) = choose|a: int, b: int|
            0 <= a < points.len() && 0 <= b < points.len() && !(#[trigger] points[a]).x.equals(
                (#[trigger] points[b]).x,
            );
        assert(points.contains(points[a]) && points.contains(points[b]));
        let t = choose|t: int| 0 <= t < sorted.len() && sorted[t] == points[a];
        let u = choose|u: int| 0 <= u < sorted.len() && sorted[u] == points[b];
        a_place_is_kept(sorted, t);
        a_place_is_kept(sorted, u);
        assert(false);
    }
    assert(safe_points(points) == kept);
}

proof fn a_place_is_kept(points: Seq<CurvePoint>, s: int)
    requires
        ordered(points),
        all_in_square(points),
        0 <= s < points.len(),
    ensures
        exists|k: int|
            0 <= k < without_repeats(points).len() && (#[trigger] without_repeats(
                points,
            )[k]).x.equals(points[s].x),
    decreases points.len(),
{
    let before = points.drop_last();
    let rest = without_repeats(before);
    let now = without_repeats(points);
    assert(in_square(points[s]));
    if s == points.len() - 1 {
        without_repeats_is_strict(points);
        assert(now[now.len() - 1].x.equals(points[s].x));
    } else {
        a_place_is_kept(before, s);
        let k = choose|k: int| 0 <= k < rest.len() && (#[trigger] rest[k]).x.equals(points[s].x);
        assert(now[k] == rest[k]);
    }
}

/// Of two points of a sorted list at one place the first is kept.
pub proof fn a_repeated_place_keeps_its_first_point(points: Seq<CurvePoint>, s: int)
    requires
        ordered(points),
        all_in_square(points),
        0 <= s < points.len(),
        s > 0 ==> !points[s - 1].x.equals(points[s].x),
    ensures
        without_repeats(points).contains(points[s]),
    decreases points.len(),
{
    let before = points.drop_last();
    let rest = without_repeats(before);
    let now = without_repeats(points);
    if s == points.len() - 1 {
        if before.len() > 0 {
            without_repeats_is_strict(before);
            assert(in_square(points[s]) && in_square(points[s - 1]));
            assert(before.last() == points[s - 1]);
        }
        assert(now[rest.len() as int] == points[s]);
    } else {
        a_repeated_place_keeps_its_first_point(before, s);
        let k = choose|k: int| 0 <= k < rest.len() && rest[k] == before[s];
        assert(now[k] == points[s]);
    }
}

/// Looks that agree in every curve, range and wheel are equal.
pub proof fn looks_that_agree_are_equal(a: Look, b: Look)
    requires
        a.curves.master.equals(b.curves.master) && a.curves.red.equals(b.curves.red),
        a.curves.green.equals(b.curves.green) && a.curves.blue.equals(b.curves.blue),
        forall|i: int|
            0 <= i < 8 ==> (#[trigger] a.hsl@[i]).hue.equals(b.hsl@[i].hue)
                && a.hsl@[i].saturation.equals(b.hsl@[i].saturation)
                && a.hsl@[i].luminance.equals(b.hsl@[i].luminance),
        a.wheels.shadows.x.equals(b.wheels.shadows.x),
        a.wheels.shadows.y.equals(b.wheels.shadows.y),
        a.wheels.shadows.luminance.equals(b.wheels.shadows.luminance),
        a.wheels.midtones.x.equals(b.wheels.midtones.x),
        a.wheels.midtones.y.equals(b.wheels.midtones.y),
        a.wheels.midtones.luminance.equals(b.wheels.midtones.luminance),
        a.wheels.highlights.x.equals(b.wheels.highlights.x),
        a.wheels.highlights.y.equals(b.wheels.highlights.y),
        a.wheels.highlights.luminance.equals(b.wheels.highlights.luminance),
    ensures
        a.equals(b),
{
    assert forall|i: int| 0 <= i < HSL_RANGES implies (#[trigger] a.hsl@[i]).equals(b.hsl@[i]) by {
        assert(a.hsl@[i].hue.equals(b.hsl@[i].hue));
    }
}

/// Curves with as many points, each where the other's is, are equal.
pub proof fn curves_that_agree_are_equal(a: Curve, b: Curve)
    requires
        a.points@.len() == b.points@.len(),
        forall|i: int|
            0 <= i < a.points@.len() ==> (#[trigger] a.points@[i]).x.equals(b.points@[i].x)
                && a.points@[i].y.equals(b.points@[i].y),
    ensures
        a.equals(b),
{
}

} // verus!
