//! A painted mask source: an ordered list of strokes.
//!
//! A stroke is its points on the uncropped photo, normalised as every mask
//! position is, with the brush it was painted with. It is stored as points
//! and never as pixels, so it is exact at any zoom and at the export. A
//! coordinate is stored in millionths of the photo and a pressure in
//! thousandths.
//!
//! A finished stroke never changes and is shared by reference count: a clone
//! of a brush, of a sidecar or of an undo step copies pointers. The stroke
//! being painted is the only one that grows. A [`SharedStroke`] is sanitised
//! when it is made and by every change, so a brush is sanitised without
//! reading its points.

use crate::num::{held_is_in_range, single, Single, HUNDRED, ZERO};
use std::sync::Arc;
use vstd::prelude::*;

verus! {

/// The most strokes one brush holds.
pub const MAX_STROKES: usize = 2000;

/// The most points one stroke holds.
pub const MAX_STROKE_POINTS: usize = 4096;

/// The bits of the smallest brush radius, 0.0002 of the longer side of the
/// photo.
pub const MIN_BRUSH_SIZE: u32 = 0x3951_b717;

/// The bits of the largest brush radius: half the longer side.
pub const MAX_BRUSH_SIZE: u32 = 0x3f00_0000;

/// The bits of the least flow, 1: a dab always paints something.
pub const MIN_FLOW: u32 = 0x3f80_0000;

/// The bits of the radius of a stroke that names none, 0.03.
pub const DEFAULT_SIZE: u32 = 0x3cf5_c28f;

/// The bits of the feather of a stroke that names none, 50.
pub const DEFAULT_FEATHER: u32 = 0x4248_0000;

/// The bits of the sensitivity of an auto stroke that names none, 50.
pub const DEFAULT_SENSITIVITY: u32 = 0x4248_0000;

/// The steps a stored coordinate is rounded to: a millionth of the photo,
/// under a hundredth of a pixel on 8,000 pixels, and short in the file.
pub const POINT_STEPS: i64 = 1_000_000;

/// The steps a stored pressure is rounded to: three decimals, finer than the
/// 1,024 levels Windows reports for a pen.
pub const PRESSURE_STEPS: i64 = 1000;

/// How far off the photo a mask position reaches, in steps: four times its
/// side.
pub const POSITION_REACH: i64 = 4_000_000;

/// A number in whole steps, the nearest to what a device or a file gave; no
/// count when that was not finite.
#[derive(Clone, Copy, Debug)]
pub struct Steps {
    pub count: Option<i64>,
    /// Whether a count of 0 is the zero below: a number just under 0 rounds
    /// to -0, which equals 0 and is written with its sign.
    pub minus_zero: bool,
}

impl Steps {
    /// The same finite number.
    pub open spec fn equals(self, other: Steps) -> bool {
        self.count is Some && other.count is Some && self.count->0 == other.count->0
    }
}

impl PartialEq for Steps {
    fn eq(&self, other: &Self) -> (r: bool) {
        match (self.count, other.count) {
            (Some(a), Some(b)) => a == b,
            _ => false,
        }
    }
}

impl vstd::std_specs::cmp::PartialEqSpecImpl for Steps {
    open spec fn obeys_eq_spec() -> bool {
        true
    }

    open spec fn eq_spec(&self, other: &Self) -> bool {
        self.equals(*other)
    }
}

/// A place on the uncropped photo, in millionths of its sides.
#[derive(Clone, Copy, Debug)]
pub struct Place {
    pub x: Steps,
    pub y: Steps,
}

impl Place {
    pub open spec fn equals(self, other: Place) -> bool {
        self.x.equals(other.x) && self.y.equals(other.y)
    }
}

impl PartialEq for Place {
    fn eq(&self, other: &Self) -> (r: bool) {
        self.x == other.x && self.y == other.y
    }
}

impl vstd::std_specs::cmp::PartialEqSpecImpl for Place {
    open spec fn obeys_eq_spec() -> bool {
        true
    }

    open spec fn eq_spec(&self, other: &Self) -> bool {
        self.equals(*other)
    }
}

/// A count held to a range.
pub open spec fn held(count: i64, low: i64, high: i64) -> i64 {
    if count < low {
        low
    } else if count > high {
        high
    } else {
        count
    }
}

fn hold(count: i64, low: i64, high: i64) -> (r: i64)
    ensures
        r == held(count, low, high),
{
    if count < low {
        low
    } else if count > high {
        high
    } else {
        count
    }
}

/// A pressure as a stroke stores it.
pub open spec fn stored_pressure_spec(pressure: Steps) -> Steps {
    match pressure.count {
        Some(count) => Steps {
            count: Some(held(count, 0, PRESSURE_STEPS)),
            minus_zero: count == 0 && pressure.minus_zero,
        },
        None => Steps { count: Some(PRESSURE_STEPS), minus_zero: false },
    }
}

/// A pressure as a stroke stores it: 0 to 1 on the stored steps. A pressure
/// that is not finite is a full one.
pub fn stored_pressure(pressure: Steps) -> (r: Steps)
    ensures
        r == stored_pressure_spec(pressure),
{
    match pressure.count {
        Some(count) => Steps {
            count: Some(hold(count, 0, PRESSURE_STEPS)),
            minus_zero: count == 0 && pressure.minus_zero,
        },
        None => Steps { count: Some(PRESSURE_STEPS), minus_zero: false },
    }
}

/// Whether a point can be stored: both coordinates are finite.
pub open spec fn storable(point: Place) -> bool {
    point.x.count is Some && point.y.count is Some
}

/// A coordinate inside the reach of a mask position.
pub open spec fn stored_coordinate(at: Steps) -> Steps {
    let count = held(
        at.count->0,
        (-POSITION_REACH) as i64,
        (POINT_STEPS + POSITION_REACH) as i64,
    );
    Steps { count: Some(count), minus_zero: count == 0 && at.minus_zero }
}

/// A point as a stroke stores it.
pub open spec fn stored_place(point: Place) -> Place {
    Place { x: stored_coordinate(point.x), y: stored_coordinate(point.y) }
}

/// A point as a stroke stores it: inside the reach of a mask position and on
/// the stored steps. A point that is not finite is no point.
pub fn stored_point(point: Place) -> (r: Option<Place>)
    ensures
        r == if storable(point) {
            Some(stored_place(point))
        } else {
            None
        },
{
    match (point.x.count, point.y.count) {
        (Some(x), Some(y)) => {
            let x: i64 = hold(x, -POSITION_REACH, POINT_STEPS + POSITION_REACH);
            let y: i64 = hold(y, -POSITION_REACH, POINT_STEPS + POSITION_REACH);
            Some(
                Place {
                    x: Steps { count: Some(x), minus_zero: x == 0 && point.x.minus_zero },
                    y: Steps { count: Some(y), minus_zero: y == 0 && point.y.minus_zero },
                },
            )
        },
        _ => None,
    }
}

/// One stroke: where the brush went and what it was.
#[derive(Debug)]
pub struct Stroke {
    /// The path, normalised to the uncropped photo. A single point is a dab.
    pub points: Vec<Place>,
    /// The pen pressure at each point, in thousandths. Empty when the stroke
    /// was painted with no pen, and every point is then at 1.
    pub pressure: Vec<Steps>,
    /// The radius as a fraction of the longer side of the photo.
    pub size: Single,
    /// How much of the radius the fall takes, 0 (a hard rim) to 100 (from
    /// the centre).
    pub feather: Single,
    /// How much one dab paints, 1 to 100.
    pub flow: Single,
    /// Whether the stroke takes away what was painted before it.
    pub erase: bool,
    /// Whether each dab paints only the colour under its centre.
    pub auto: bool,
    /// How close to that colour a pixel must be, 0 (loose) to 100 (strict).
    /// It means nothing on a stroke that is not auto and is the default
    /// there.
    pub sensitivity: Single,
    /// Whether the pressure scales the radius: the toggle at the press.
    pub pressure_size: bool,
    /// Whether the pressure scales the flow: the toggle at the press.
    pub pressure_flow: bool,
}

/// What a stroke holds.
#[verifier::ext_equal]
pub struct StrokeView {
    pub points: Seq<Place>,
    pub pressure: Seq<Steps>,
    pub size: Single,
    pub feather: Single,
    pub flow: Single,
    pub erase: bool,
    pub auto: bool,
    pub sensitivity: Single,
    pub pressure_size: bool,
    pub pressure_flow: bool,
}

impl View for Stroke {
    type V = StrokeView;

    open spec fn view(&self) -> StrokeView {
        StrokeView {
            points: self.points@,
            pressure: self.pressure@,
            size: self.size,
            feather: self.feather,
            flow: self.flow,
            erase: self.erase,
            auto: self.auto,
            sensitivity: self.sensitivity,
            pressure_size: self.pressure_size,
            pressure_flow: self.pressure_flow,
        }
    }
}

/// A number that is not finite becomes the default, and the rest is held to
/// its range.
pub open spec fn settled_number(value: Single, default: u32, low: u32, high: u32) -> Single {
    (if value.finite() {
        value
    } else {
        Single { bits: default }
    }).held(Single { bits: low }, Single { bits: high })
}

fn settle_number(value: Single, default: u32, low: u32, high: u32) -> (r: Single)
    ensures
        r == settled_number(value, default, low, high),
{
    let number: Single = if value.is_finite() {
        value
    } else {
        Single { bits: default }
    };
    number.clamped(Single { bits: low }, Single { bits: high })
}

/// The places in a list of points of those a stroke keeps: the storable ones,
/// up to the most a stroke holds.
pub open spec fn kept(points: Seq<Place>) -> Seq<int>
    decreases points.len(),
{
    if points.len() == 0 {
        Seq::empty()
    } else {
        let rest = kept(points.drop_last());
        if storable(points.last()) && rest.len() < MAX_STROKE_POINTS {
            rest.push(points.len() - 1)
        } else {
            rest
        }
    }
}

/// The points a stroke keeps, as it stores them.
pub open spec fn kept_points(points: Seq<Place>) -> Seq<Place> {
    kept(points).map_values(|i: int| stored_place(points[i]))
}

/// The pressures of the points a stroke keeps: a point that is dropped takes
/// its pressure with it, and a list shorter than the points goes on at its
/// last value.
pub open spec fn kept_pressure(points: Seq<Place>, pressure: Seq<Steps>) -> Seq<Steps> {
    if pressure.len() == 0 {
        Seq::empty()
    } else {
        kept(points).map_values(
            |i: int|
                stored_pressure_spec(
                    pressure[if i < pressure.len() {
                        i
                    } else {
                        pressure.len() - 1
                    }],
                ),
        )
    }
}

/// Two strokes with the same brush.
pub open spec fn same_brush(a: StrokeView, b: StrokeView) -> bool {
    &&& a.size.equals(b.size)
    &&& a.feather.equals(b.feather)
    &&& a.flow.equals(b.flow)
    &&& a.erase == b.erase
    &&& a.auto == b.auto
    &&& a.sensitivity.equals(b.sensitivity)
    &&& a.pressure_size == b.pressure_size
    &&& a.pressure_flow == b.pressure_flow
}

/// A pressure as stored: a full one where there is none.
pub open spec fn pressure_at_spec(pressure: Seq<Steps>, index: int) -> Steps {
    if 0 <= index < pressure.len() {
        pressure[index]
    } else {
        Steps { count: Some(PRESSURE_STEPS), minus_zero: false }
    }
}

pub open spec fn on_photo(at: Steps) -> bool {
    at.count matches Some(count) && -POSITION_REACH <= count <= POINT_STEPS + POSITION_REACH && (
    at.minus_zero ==> count == 0)
}

pub open spec fn a_pressure(pressure: Steps) -> bool {
    pressure.count matches Some(count) && 0 <= count <= PRESSURE_STEPS && (pressure.minus_zero
        ==> count == 0)
}

impl StrokeView {
    /// The same stroke as a value.
    pub open spec fn equals(self, other: StrokeView) -> bool {
        &&& self.points.len() == other.points.len()
        &&& forall|i: int|
            0 <= i < self.points.len() ==> (#[trigger] self.points[i]).equals(other.points[i])
        &&& self.pressure.len() == other.pressure.len()
        &&& forall|i: int|
            0 <= i < self.pressure.len() ==> (#[trigger] self.pressure[i]).equals(
                other.pressure[i],
            )
        &&& same_brush(self, other)
    }

    /// Every number finite and inside its range, at most [`MAX_STROKE_POINTS`]
    /// points, and no pressure or one for each point.
    pub open spec fn sane(self) -> bool {
        &&& self.points.len() <= MAX_STROKE_POINTS
        &&& forall|i: int|
            0 <= i < self.points.len() ==> on_photo((#[trigger] self.points[i]).x) && on_photo(
                self.points[i].y,
            )
        &&& self.pressure.len() == 0 || self.pressure.len() == self.points.len()
        &&& forall|i: int| 0 <= i < self.pressure.len() ==> a_pressure(#[trigger] self.pressure[i])
        &&& self.size.finite() && Single { bits: MIN_BRUSH_SIZE }.at_most(self.size)
            && self.size.at_most(Single { bits: MAX_BRUSH_SIZE })
        &&& self.feather.finite() && Single { bits: ZERO }.at_most(self.feather)
            && self.feather.at_most(Single { bits: HUNDRED })
        &&& self.flow.finite() && Single { bits: MIN_FLOW }.at_most(self.flow)
            && self.flow.at_most(Single { bits: HUNDRED })
        &&& self.sensitivity.finite() && Single { bits: ZERO }.at_most(self.sensitivity)
            && self.sensitivity.at_most(Single { bits: HUNDRED })
        &&& !self.auto ==> self.sensitivity == Single { bits: DEFAULT_SENSITIVITY }
    }

    /// The stroke with every number finite and inside its range.
    pub open spec fn sanitised(self) -> StrokeView {
        StrokeView {
            points: kept_points(self.points),
            pressure: kept_pressure(self.points, self.pressure),
            size: settled_number(self.size, DEFAULT_SIZE, MIN_BRUSH_SIZE, MAX_BRUSH_SIZE),
            feather: settled_number(self.feather, DEFAULT_FEATHER, ZERO, HUNDRED),
            flow: settled_number(self.flow, HUNDRED, MIN_FLOW, HUNDRED),
            sensitivity: if self.auto {
                settled_number(self.sensitivity, DEFAULT_SENSITIVITY, ZERO, HUNDRED)
            } else {
                Single { bits: DEFAULT_SENSITIVITY }
            },
            ..self
        }
    }

    /// The stroke with one more point.
    pub open spec fn pushed(self, point: Place, pressed: Option<Steps>) -> StrokeView {
        StrokeView {
            points: self.points.push(stored_place(point)),
            pressure: pressure_pushed(self.pressure, self.points.len(), pressed),
            ..self
        }
    }
}

impl Stroke {
    /// The stroke with every number finite and inside its range, at most
    /// [`MAX_STROKE_POINTS`] points, each point on the stored steps, and a
    /// pressure list that is empty or as long as the points: a longer one is
    /// cut and a shorter one goes on at its last value.
    pub fn sanitised(&self) -> (r: Stroke)
        ensures
            r@ == self@.sanitised(),
            r@.sane(),
    {
        let mut points: Vec<Place> = Vec::new();
        let mut pressure: Vec<Steps> = Vec::new();
        let mut i: usize = 0;
        while i < self.points.len()
            invariant
                0 <= i <= self.points@.len(),
                points@ == kept_points(self.points@.take(i as int)),
                pressure@ == kept_pressure(self.points@.take(i as int), self.pressure@),
            decreases self.points.len() - i,
        {
            let ghost before = self.points@.take(i as int);
            let ghost now = self.points@.take(i + 1);
            proof {
                assert(now.drop_last() =~= before);
                kept_is_inside(before);
                assert(kept_points(before) =~= kept(before).map_values(
                    |k: int| stored_place(now[k]),
                ));
                assert(points@.len() == kept(before).len());
            }
            if let Some(point) = stored_point(self.points[i]) {
                if points.len() < MAX_STROKE_POINTS {
                    points.push(point);
                    if self.pressure.len() > 0 {
                        let last: usize = self.pressure.len() - 1;
                        let at: usize = if i < last {
                            i
                        } else {
                            last
                        };
                        pressure.push(stored_pressure(self.pressure[at]));
                    }
                }
            }
            i += 1;
            assert(points@ =~= kept_points(now));
            assert(pressure@ =~= kept_pressure(now, self.pressure@));
        }
        assert(self.points@.take(i as int) =~= self.points@);
        let r = Stroke {
            points,
            pressure,
            size: settle_number(self.size, DEFAULT_SIZE, MIN_BRUSH_SIZE, MAX_BRUSH_SIZE),
            feather: settle_number(self.feather, DEFAULT_FEATHER, ZERO, HUNDRED),
            flow: settle_number(self.flow, HUNDRED, MIN_FLOW, HUNDRED),
            erase: self.erase,
            auto: self.auto,
            sensitivity: if self.auto {
                settle_number(self.sensitivity, DEFAULT_SENSITIVITY, ZERO, HUNDRED)
            } else {
                Single { bits: DEFAULT_SENSITIVITY }
            },
            pressure_size: self.pressure_size,
            pressure_flow: self.pressure_flow,
        };
        proof {
            sanitised_is_sane(self@);
        }
        r
    }

    /// The pressure at a point: 1 where the stroke holds none.
    pub fn pressure_at(&self, index: usize) -> (r: Steps)
        ensures
            r == pressure_at_spec(self.pressure@, index as int),
    {
        if index < self.pressure.len() {
            self.pressure[index]
        } else {
            Steps { count: Some(PRESSURE_STEPS), minus_zero: false }
        }
    }

    /// Whether the pressure changes any dab: the stroke holds pressures and
    /// one of the two flags is on.
    pub fn uses_pressure(&self) -> (r: bool)
        ensures
            r == (self.pressure@.len() > 0 && (self.pressure_size || self.pressure_flow)),
    {
        self.pressure.len() > 0 && (self.pressure_size || self.pressure_flow)
    }

    fn has_same_brush(&self, other: &Stroke) -> (r: bool)
        ensures
            r == same_brush(self@, other@),
    {
        self.size == other.size && self.feather == other.feather && self.flow == other.flow
            && self.erase == other.erase && self.auto == other.auto && self.sensitivity
            == other.sensitivity && self.pressure_size == other.pressure_size && self.pressure_flow
            == other.pressure_flow
    }
}

impl Clone for Stroke {
    fn clone(&self) -> (r: Self)
        ensures
            r@ == self@,
    {
        let points: Vec<Place> = self.points.clone();
        let pressure: Vec<Steps> = self.pressure.clone();
        assert(points@ =~= self.points@);
        assert(pressure@ =~= self.pressure@);
        Stroke {
            points,
            pressure,
            size: self.size,
            feather: self.feather,
            flow: self.flow,
            erase: self.erase,
            auto: self.auto,
            sensitivity: self.sensitivity,
            pressure_size: self.pressure_size,
            pressure_flow: self.pressure_flow,
        }
    }
}

impl PartialEq for Stroke {
    fn eq(&self, other: &Self) -> (r: bool) {
        self.points == other.points && self.pressure == other.pressure && self.has_same_brush(other)
    }
}

impl vstd::std_specs::cmp::PartialEqSpecImpl for Stroke {
    open spec fn obeys_eq_spec() -> bool {
        true
    }

    open spec fn eq_spec(&self, other: &Self) -> bool {
        self@.equals(other@)
    }
}

impl Default for Stroke {
    fn default() -> (r: Self)
        ensures
            r.points@.len() == 0,
            r.pressure@.len() == 0,
            r.size == (Single { bits: DEFAULT_SIZE }),
            r.feather == (Single { bits: DEFAULT_FEATHER }),
            r.flow == (Single { bits: HUNDRED }),
            !r.erase && !r.auto && !r.pressure_size && !r.pressure_flow,
            r.sensitivity == (Single { bits: DEFAULT_SENSITIVITY }),
            r@.sane(),
    {
        Stroke {
            points: Vec::new(),
            pressure: Vec::new(),
            size: Single { bits: DEFAULT_SIZE },
            feather: Single { bits: DEFAULT_FEATHER },
            flow: Single { bits: HUNDRED },
            erase: false,
            auto: false,
            sensitivity: Single { bits: DEFAULT_SENSITIVITY },
            pressure_size: false,
            pressure_flow: false,
        }
    }
}

proof fn kept_is_inside(points: Seq<Place>)
    ensures
        kept(points).len() <= MAX_STROKE_POINTS,
        kept(points).len() <= points.len(),
        forall|k: int|
            0 <= k < kept(points).len() ==> 0 <= #[trigger] kept(points)[k] < points.len()
                && storable(points[kept(points)[k]]),
    decreases points.len(),
{
    if points.len() > 0 {
        kept_is_inside(points.drop_last());
        let rest = kept(points.drop_last());
        assert forall|k: int| 0 <= k < kept(points).len() implies 0 <= #[trigger] kept(points)[k]
            < points.len() && storable(points[kept(points)[k]]) by {
            if k < rest.len() {
                assert(kept(points)[k] == rest[k]);
                assert(points.drop_last()[rest[k]] == points[rest[k]]);
            }
        }
    }
}

proof fn settled_number_is_held(value: Single, default: u32, low: u32, high: u32)
    requires
        single(low).at_most(single(high)),
        single(low).finite(),
        single(high).finite(),
        single(default).finite(),
    ensures
        settled_number(value, default, low, high).finite(),
        single(low).at_most(settled_number(value, default, low, high)),
        settled_number(value, default, low, high).at_most(single(high)),
{
    held_is_in_range(
        if value.finite() {
            value
        } else {
            single(default)
        },
        single(low),
        single(high),
    );
}

proof fn sanitised_is_sane(from: StrokeView)
    ensures
        from.sanitised().sane(),
{
    kept_is_inside(from.points);
    settled_number_is_held(from.size, DEFAULT_SIZE, MIN_BRUSH_SIZE, MAX_BRUSH_SIZE);
    settled_number_is_held(from.feather, DEFAULT_FEATHER, ZERO, HUNDRED);
    settled_number_is_held(from.flow, HUNDRED, MIN_FLOW, HUNDRED);
    settled_number_is_held(from.sensitivity, DEFAULT_SENSITIVITY, ZERO, HUNDRED);
}

proof fn kept_of_sane(points: Seq<Place>)
    requires
        points.len() <= MAX_STROKE_POINTS,
        forall|i: int| 0 <= i < points.len() ==> storable(#[trigger] points[i]),
    ensures
        kept(points) == Seq::new(points.len(), |i: int| i),
    decreases points.len(),
{
    if points.len() > 0 {
        kept_of_sane(points.drop_last());
        assert(storable(points[points.len() - 1]));
    }
    assert(kept(points) =~= Seq::new(points.len(), |i: int| i));
}

/// A sane stroke is left as it is.
pub proof fn sanitising_keeps_a_sane_stroke(stroke: StrokeView)
    requires
        stroke.sane(),
    ensures
        stroke.sanitised() == stroke,
{
    assert forall|i: int| 0 <= i < stroke.points.len() implies storable(
        #[trigger] stroke.points[i],
    ) by {
        assert(on_photo(stroke.points[i].x));
    }
    kept_of_sane(stroke.points);
    assert(stroke.sanitised().points =~= stroke.points);
    assert(stroke.sanitised().pressure =~= stroke.pressure);
}

/// Sanitising twice is sanitising once.
pub proof fn sanitising_a_stroke_twice_changes_nothing(stroke: StrokeView)
    ensures
        stroke.sanitised().sanitised() == stroke.sanitised(),
{
    sanitised_is_sane(stroke);
    sanitising_keeps_a_sane_stroke(stroke.sanitised());
}

/// A sane stroke equals itself.
pub proof fn a_sane_stroke_equals_itself(stroke: StrokeView)
    requires
        stroke.sane(),
    ensures
        stroke.equals(stroke),
{
}

/// `Arc::clone`: another pointer to the same stroke.
#[verifier::external_body]
fn share(stroke: &Arc<Stroke>) -> (r: Arc<Stroke>)
    ensures
        r == *stroke,
{
    Arc::clone(stroke)
}

/// `Arc::ptr_eq`: two pointers to one allocation point to one stroke. Which
/// strokes share an allocation is not stated: it is no part of their value.
#[verifier::external_body]
fn one_allocation(a: &Arc<Stroke>, b: &Arc<Stroke>) -> (r: bool)
    ensures
        r ==> *a == *b,
{
    Arc::ptr_eq(a, b)
}

/// `Arc::make_mut`: the stroke to change, which is a clone of the one that
/// was there when another pointer holds it. What is written through the
/// reference is what the pointer holds afterwards.
#[verifier::external_body]
fn make_mut(stroke: &mut Arc<Stroke>) -> (r: &mut Stroke)
    ensures
        r@ == old(stroke)@,
        **final(stroke) == *final(r),
{
    Arc::make_mut(stroke)
}

/// A sanitised stroke behind a reference count.
#[derive(Debug)]
pub struct SharedStroke(Arc<Stroke>);

/// `now` is `then` with points added: the same brush, and the path of `then`
/// at the start of this one. A stroke that met its pen late holds 1 where it
/// held nothing.
pub open spec fn grown(now: StrokeView, then: StrokeView) -> bool {
    &&& same_brush(now, then)
    &&& then.points.len() <= now.points.len()
    &&& forall|i: int|
        0 <= i < then.points.len() ==> (#[trigger] now.points[i]).equals(then.points[i])
    &&& (now.pressure.len() == 0 && then.pressure.len() == 0) || forall|i: int|
        0 <= i < then.points.len() ==> (#[trigger] pressure_at_spec(now.pressure, i)).equals(
            pressure_at_spec(then.pressure, i),
        )
}

/// Full pressure at each of so many points.
pub open spec fn full_pressures(points: nat) -> Seq<Steps> {
    Seq::new(points, |i: int| Steps { count: Some(PRESSURE_STEPS), minus_zero: false })
}

/// The pressures after a point with this pressure was added.
pub open spec fn pressure_pushed(
    pressure: Seq<Steps>,
    points: nat,
    pressed: Option<Steps>,
) -> Seq<Steps> {
    match pressed {
        Some(pressed) => {
            let before = if pressure.len() == 0 {
                full_pressures(points)
            } else {
                pressure
            };
            before.push(stored_pressure_spec(pressed))
        },
        None => if pressure.len() == 0 {
            pressure
        } else {
            pressure.push(pressure.last())
        },
    }
}

impl View for SharedStroke {
    type V = StrokeView;

    closed spec fn view(&self) -> StrokeView {
        (*self.0)@
    }
}

impl SharedStroke {
    #[verifier::type_invariant]
    closed spec fn inv(self) -> bool {
        (*self.0)@.sane()
    }

    pub fn new(stroke: &Stroke) -> (r: Self)
        ensures
            r@ == stroke@.sanitised(),
            r@.sane(),
    {
        SharedStroke(Arc::new(stroke.sanitised()))
    }

    /// The stroke.
    pub fn get(&self) -> (r: &Stroke)
        ensures
            r@ == self@,
            r@.sane(),
    {
        proof {
            use_type_invariant(self);
        }
        &self.0
    }

    /// Adds a point to the path. Only the stroke being painted grows; when
    /// the stroke is shared (an undo step holds it) the other holders keep
    /// the path they had. False when the point is not finite or the stroke
    /// is full.
    ///
    /// `pressure` is what a pen reports and `None` from a mouse or a finger.
    /// A stroke that has met no pen holds no pressures. The first pressure
    /// puts the points before it at 1, and from then on a point with none
    /// takes the pressure of the point before it.
    pub fn push(&mut self, point: Place, pressure: Option<Steps>) -> (r: bool)
        ensures
            r == (storable(point) && old(self)@.points.len() < MAX_STROKE_POINTS),
            final(self)@ == if r {
                old(self)@.pushed(point, pressure)
            } else {
                old(self)@
            },
            final(self)@.sane(),
    {
        proof {
            use_type_invariant(&*self);
        }
        let ghost given = point;
        let point: Place = match stored_point(point) {
            Some(point) => point,
            None => {
                return false;
            },
        };
        if self.0.points.len() >= MAX_STROKE_POINTS {
            return false;
        }
        let mut held: Arc<Stroke> = Arc::new(Stroke::default());
        std::mem::swap(&mut self.0, &mut held);
        let stroke: &mut Stroke = make_mut(&mut held);
        match pressure {
            Some(pressed) => {
                if stroke.pressure.len() == 0 {
                    let count: usize = stroke.points.len();
                    let mut full: Vec<Steps> = Vec::new();
                    let mut i: usize = 0;
                    while i < count
                        invariant
                            0 <= i <= count,
                            full@ == full_pressures(i as nat),
                        decreases count - i,
                    {
                        full.push(Steps { count: Some(PRESSURE_STEPS), minus_zero: false });
                        i += 1;
                        assert(full@ =~= full_pressures(i as nat));
                    }
                    stroke.pressure = full;
                }
                stroke.pressure.push(stored_pressure(pressed));
            },
            None => {
                let count: usize = stroke.pressure.len();
                if count > 0 {
                    let last: Steps = stroke.pressure[count - 1];
                    stroke.pressure.push(last);
                }
            },
        }
        stroke.points.push(point);
        self.0 = held;
        assert(self@ =~= old(self)@.pushed(given, pressure));
        true
    }

    /// Whether the two are one allocation.
    pub fn shares_with(&self, other: &SharedStroke) -> (r: bool)
        ensures
            r ==> self@ == other@,
    {
        one_allocation(&self.0, &other.0)
    }

    /// Whether `self` is `earlier` with points added: the same brush, and
    /// the path of `earlier` at the start of this one. How many points were
    /// added.
    pub fn grown_from(&self, earlier: &SharedStroke) -> (r: Option<usize>)
        ensures
            grown(self@, earlier@) ==> r == Some(
                (self@.points.len() - earlier@.points.len()) as usize,
            ),
            !grown(self@, earlier@) ==> r is None,
    {
        proof {
            use_type_invariant(self);
            use_type_invariant(earlier);
        }
        let (now, then): (&Stroke, &Stroke) = (&self.0, &earlier.0);
        if self.shares_with(earlier) {
            assert(grown(self@, earlier@)) by {
                assert forall|i: int| 0 <= i < then.points@.len() implies (
                #[trigger] pressure_at_spec(now.pressure@, i)).equals(
                    pressure_at_spec(then.pressure@, i),
                ) by {
                    if i < now.pressure@.len() {
                        assert(a_pressure(now.pressure@[i]));
                    }
                }
            }
            return Some(0);
        }
        if !now.has_same_brush(then) || now.points.len() < then.points.len() {
            return None;
        }
        let mut i: usize = 0;
        while i < then.points.len()
            invariant
                0 <= i <= then.points@.len() <= now.points@.len(),
                forall|k: int|
                    0 <= k < i ==> (#[trigger] now.points@[k]).equals(then.points@[k]),
                now@ == self@,
                then@ == earlier@,
            decreases then.points.len() - i,
        {
            if now.points[i] != then.points[i] {
                assert(!now.points@[i as int].equals(then.points@[i as int]));
                return None;
            }
            i += 1;
        }
        if now.pressure.len() > 0 || then.pressure.len() > 0 {
            let mut i: usize = 0;
            while i < then.points.len()
                invariant
                    0 <= i <= then.points@.len() <= now.points@.len(),
                    now.pressure@.len() > 0 || then.pressure@.len() > 0,
                    forall|k: int|
                        0 <= k < i ==> (#[trigger] pressure_at_spec(now.pressure@, k)).equals(
                            pressure_at_spec(then.pressure@, k),
                        ),
                    now@ == self@,
                    then@ == earlier@,
                decreases then.points.len() - i,
            {
                if now.pressure_at(i) != then.pressure_at(i) {
                    assert(!pressure_at_spec(now.pressure@, i as int).equals(
                        pressure_at_spec(then.pressure@, i as int),
                    ));
                    return None;
                }
                i += 1;
            }
        }
        Some(now.points.len() - then.points.len())
    }
}

impl Clone for SharedStroke {
    fn clone(&self) -> (r: Self)
        ensures
            r@ == self@,
    {
        proof {
            use_type_invariant(self);
        }
        SharedStroke(share(&self.0))
    }
}

impl PartialEq for SharedStroke {
    fn eq(&self, other: &Self) -> (r: bool) {
        proof {
            use_type_invariant(self);
            use_type_invariant(other);
            a_sane_stroke_equals_itself(self@);
        }
        self.shares_with(other) || *self.0 == *other.0
    }
}

impl vstd::std_specs::cmp::PartialEqSpecImpl for SharedStroke {
    open spec fn obeys_eq_spec() -> bool {
        true
    }

    open spec fn eq_spec(&self, other: &Self) -> bool {
        self@.equals(other@)
    }
}

/// A point added to a stroke leaves the stroke grown by one.
pub proof fn a_pushed_stroke_has_grown(then: StrokeView, point: Place, pressed: Option<Steps>)
    requires
        then.sane(),
    ensures
        grown(then.pushed(point, pressed), then),
        then.pushed(point, pressed).points.len() == then.points.len() + 1,
{
    let now = then.pushed(point, pressed);
    assert forall|i: int| 0 <= i < then.points.len() implies (#[trigger] now.points[i]).equals(
        then.points[i],
    ) by {
        assert(on_photo(then.points[i].x));
    }
    assert forall|i: int| 0 <= i < then.points.len() implies (#[trigger] pressure_at_spec(
        now.pressure,
        i,
    )).equals(pressure_at_spec(then.pressure, i)) by {
        if then.pressure.len() > 0 {
            assert(a_pressure(then.pressure[i]));
        }
    }
}

/// A painted source: strokes applied in order, so an erase stroke removes
/// only what was painted before it.
#[derive(Debug)]
pub struct Brush {
    pub strokes: Vec<SharedStroke>,
}

/// The strokes of a list.
pub open spec fn strokes_of(strokes: Seq<SharedStroke>) -> Seq<StrokeView> {
    strokes.map_values(|s: SharedStroke| s@)
}

/// Where the last stroke of a list that has points ended.
pub open spec fn last_place(strokes: Seq<StrokeView>) -> Option<Place>
    decreases strokes.len(),
{
    if strokes.len() == 0 {
        None
    } else if strokes.last().points.len() > 0 {
        Some(strokes.last().points.last())
    } else {
        last_place(strokes.drop_last())
    }
}

impl View for Brush {
    type V = Seq<StrokeView>;

    open spec fn view(&self) -> Seq<StrokeView> {
        strokes_of(self.strokes@)
    }
}

impl Brush {
    pub open spec fn equals(self, other: Brush) -> bool {
        &&& self@.len() == other@.len()
        &&& forall|i: int| 0 <= i < self@.len() ==> (#[trigger] self@[i]).equals(other@[i])
    }

    fn first(&self, count: usize) -> (r: Brush)
        requires
            count <= self.strokes@.len(),
        ensures
            r@ == self@.take(count as int),
    {
        let mut strokes: Vec<SharedStroke> = Vec::new();
        let mut i: usize = 0;
        while i < count
            invariant
                0 <= i <= count <= self.strokes@.len(),
                strokes_of(strokes@) == self@.take(i as int),
            decreases count - i,
        {
            let stroke: SharedStroke = self.strokes[i].clone();
            let ghost before = strokes@;
            strokes.push(stroke);
            i += 1;
            assert(strokes_of(strokes@) =~= strokes_of(before).push(stroke@));
            assert(self@.take(i as int) =~= self@.take(i - 1).push(self@[i - 1]));
        }
        Brush { strokes }
    }

    /// The brush with at most [`MAX_STROKES`] strokes. The strokes are
    /// sanitised already and are shared, not copied.
    pub fn sanitised(&self) -> (r: Brush)
        ensures
            r@ == if self@.len() > MAX_STROKES {
                self@.take(MAX_STROKES as int)
            } else {
                self@
            },
    {
        let count: usize = if self.strokes.len() > MAX_STROKES {
            MAX_STROKES
        } else {
            self.strokes.len()
        };
        let r: Brush = self.first(count);
        assert(self@.take(self@.len() as int) =~= self@);
        r
    }

    /// Whether another stroke fits.
    pub fn has_room(&self) -> (r: bool)
        ensures
            r == (self@.len() < MAX_STROKES),
    {
        self.strokes.len() < MAX_STROKES
    }

    /// Where the last stroke ended: where a straight line continues from.
    pub fn last_point(&self) -> (r: Option<Place>)
        ensures
            r == last_place(self@),
    {
        let mut left: usize = self.strokes.len();
        assert(self@.take(left as int) =~= self@);
        while left > 0
            invariant
                0 <= left <= self.strokes@.len(),
                last_place(self@) == last_place(self@.take(left as int)),
            decreases left,
        {
            left -= 1;
            assert(self@.take(left + 1).drop_last() =~= self@.take(left as int));
            assert(self@.take(left + 1).last() == self.strokes@[left as int]@);
            let points: &Vec<Place> = &self.strokes[left].get().points;
            if points.len() > 0 {
                return Some(points[points.len() - 1]);
            }
        }
        None
    }
}

impl Clone for Brush {
    fn clone(&self) -> (r: Self)
        ensures
            r@ == self@,
    {
        let r: Brush = self.first(self.strokes.len());
        assert(self@.take(self@.len() as int) =~= self@);
        r
    }
}

impl PartialEq for Brush {
    fn eq(&self, other: &Self) -> (r: bool) {
        if self.strokes.len() != other.strokes.len() {
            return false;
        }
        let mut i: usize = 0;
        while i < self.strokes.len()
            invariant
                0 <= i <= self.strokes@.len() == other.strokes@.len(),
                forall|k: int| 0 <= k < i ==> (#[trigger] self@[k]).equals(other@[k]),
            decreases self.strokes.len() - i,
        {
            if self.strokes[i] != other.strokes[i] {
                assert(!self@[i as int].equals(other@[i as int]));
                return false;
            }
            i += 1;
        }
        true
    }
}

impl vstd::std_specs::cmp::PartialEqSpecImpl for Brush {
    open spec fn obeys_eq_spec() -> bool {
        true
    }

    open spec fn eq_spec(&self, other: &Self) -> bool {
        self.equals(*other)
    }
}

impl Default for Brush {
    fn default() -> (r: Self)
        ensures
            r@.len() == 0,
    {
        Brush { strokes: Vec::new() }
    }
}

/// Equality of strokes is symmetric and transitive.
pub proof fn equal_strokes(a: StrokeView, b: StrokeView, c: StrokeView)
    ensures
        a.equals(b) ==> b.equals(a),
        a.equals(b) && b.equals(c) ==> a.equals(c),
{
    if a.equals(b) {
        assert forall|i: int| 0 <= i < b.points.len() implies (#[trigger] b.points[i]).equals(
            a.points[i],
        ) by {
            assert(a.points[i].equals(b.points[i]));
        }
        assert forall|i: int| 0 <= i < b.pressure.len() implies (#[trigger] b.pressure[i]).equals(
            a.pressure[i],
        ) by {
            assert(a.pressure[i].equals(b.pressure[i]));
        }
        if b.equals(c) {
            assert forall|i: int| 0 <= i < a.points.len() implies (#[trigger] a.points[i]).equals(
                c.points[i],
            ) by {
                assert(b.points[i].equals(c.points[i]));
            }
            assert forall|i: int| 0 <= i < a.pressure.len() implies (
            #[trigger] a.pressure[i]).equals(c.pressure[i]) by {
                assert(b.pressure[i].equals(c.pressure[i]));
            }
        }
    }
}

/// Equality of brushes is symmetric and transitive.
pub proof fn equal_brushes(a: Brush, b: Brush, c: Brush)
    ensures
        a.equals(b) ==> b.equals(a),
        a.equals(b) && b.equals(c) ==> a.equals(c),
{
    if a.equals(b) {
        assert forall|i: int| 0 <= i < b@.len() implies (#[trigger] b@[i]).equals(a@[i]) by {
            assert(a@[i].equals(b@[i]));
            equal_strokes(a@[i], b@[i], b@[i]);
        }
        if b.equals(c) {
            assert forall|i: int| 0 <= i < a@.len() implies (#[trigger] a@[i]).equals(c@[i]) by {
                assert(b@[i].equals(c@[i]));
                equal_strokes(a@[i], b@[i], c@[i]);
            }
        }
    }
}

/// A coordinate within four sides of the photo is stored as it is, and one
/// further off at the nearest place that is not; so is each axis by itself.
pub proof fn a_point_is_stored_where_it_is(point: Place)
    requires
        storable(point),
    ensures
        -4_000_000 <= point.x.count->0 <= 5_000_000 ==> stored_place(point).x.count == point.x.count,
        -4_000_000 <= point.y.count->0 <= 5_000_000 ==> stored_place(point).y.count == point.y.count,
        point.x.count->0 < -4_000_000 ==> stored_place(point).x.count == Some(-4_000_000i64),
        point.y.count->0 < -4_000_000 ==> stored_place(point).y.count == Some(-4_000_000i64),
        point.x.count->0 > 5_000_000 ==> stored_place(point).x.count == Some(5_000_000i64),
        point.y.count->0 > 5_000_000 ==> stored_place(point).y.count == Some(5_000_000i64),
        point.x.count == Some(0i64) ==> stored_place(point).x == point.x,
        point.y.count == Some(0i64) ==> stored_place(point).y == point.y,
{
}

/// A point can be stored when both its coordinates are finite, and only then.
pub proof fn a_finite_point_can_be_stored(point: Place)
    ensures
        point.x.count is Some && point.y.count is Some ==> storable(point),
        point.x.count is None || point.y.count is None ==> !storable(point),
{
}

/// A pressure from 0 to 1 is stored as it is, one outside at the nearest end,
/// and one that is not finite as a full one.
pub proof fn a_pressure_is_stored_as_it_is(pressure: Steps)
    ensures
        pressure.count matches Some(count) && 0 <= count <= 1000 ==> stored_pressure_spec(
            pressure,
        ).count == pressure.count,
        pressure.count matches Some(count) && count < 0 ==> stored_pressure_spec(pressure).count
            == Some(0i64),
        pressure.count matches Some(count) && count > 1000 ==> stored_pressure_spec(pressure).count
            == Some(1000i64),
        pressure.count is None ==> stored_pressure_spec(pressure).count == Some(1000i64),
        pressure.count == Some(0i64) ==> stored_pressure_spec(pressure) == pressure,
{
}

/// A setting of a stroke that is a finite number inside its range is kept to
/// the bit, one outside goes to the nearest end, and one that is not finite
/// to the default. The flags stay as they are, and only an auto stroke keeps
/// its sensitivity.
pub proof fn a_sane_setting_is_kept(stroke: StrokeView)
    ensures
        ({
            let now = stroke.sanitised();
            &&& now.erase == stroke.erase && now.auto == stroke.auto
            &&& now.pressure_size == stroke.pressure_size
            &&& now.pressure_flow == stroke.pressure_flow
            &&& 0x3951_b717 <= stroke.size.bits <= 0x3f00_0000 ==> now.size == stroke.size
            &&& stroke.feather.bits <= 0x42c8_0000 ==> now.feather == stroke.feather
            &&& 0x3f80_0000 <= stroke.flow.bits <= 0x42c8_0000 ==> now.flow == stroke.flow
            &&& stroke.auto && stroke.sensitivity.bits <= 0x42c8_0000 ==> now.sensitivity
                == stroke.sensitivity
            &&& !stroke.auto ==> now.sensitivity.bits == 0x4248_0000
            &&& !stroke.size.finite() ==> now.size.bits == 0x3cf5_c28f
            &&& !stroke.feather.finite() ==> now.feather.bits == 0x4248_0000
            &&& !stroke.flow.finite() ==> now.flow.bits == 0x42c8_0000
            &&& stroke.auto && !stroke.sensitivity.finite() ==> now.sensitivity.bits == 0x4248_0000
            &&& stroke.size.finite() && stroke.size.below(single(0x3951_b717)) ==> now.size.bits
                == 0x3951_b717
            &&& stroke.size.finite() && single(0x3f00_0000).below(stroke.size) ==> now.size.bits
                == 0x3f00_0000
            &&& stroke.feather.finite() && stroke.feather.below(single(0)) ==> now.feather.bits == 0
            &&& stroke.feather.finite() && single(0x42c8_0000).below(stroke.feather)
                ==> now.feather.bits == 0x42c8_0000
            &&& stroke.flow.finite() && stroke.flow.below(single(0x3f80_0000)) ==> now.flow.bits
                == 0x3f80_0000
            &&& stroke.flow.finite() && single(0x42c8_0000).below(stroke.flow) ==> now.flow.bits
                == 0x42c8_0000
        }),
{
}

proof fn kept_of_storable(points: Seq<Place>)
    requires
        forall|i: int| 0 <= i < points.len() ==> storable(#[trigger] points[i]),
    ensures
        kept(points).len() == if points.len() <= MAX_STROKE_POINTS {
            points.len()
        } else {
            MAX_STROKE_POINTS as nat
        },
        forall|i: int| 0 <= i < kept(points).len() ==> #[trigger] kept(points)[i] == i,
    decreases points.len(),
{
    if points.len() > 0 {
        kept_of_storable(points.drop_last());
        assert(storable(points[points.len() - 1]));
    }
}

/// A stroke of finite points keeps each of them at its place, with the
/// pressure it was painted with, up to 4096 points; a pressure list that is
/// too short goes on at its last value.
pub proof fn a_stroke_keeps_its_points(stroke: StrokeView, i: int)
    requires
        forall|i: int| 0 <= i < stroke.points.len() ==> storable(#[trigger] stroke.points[i]),
        0 <= i < stroke.points.len(),
        i < 4096,
    ensures
        ({
            let now = stroke.sanitised();
            &&& now.points.len() == if stroke.points.len() < 4096 {
                stroke.points.len()
            } else {
                4096
            }
            &&& now.points[i] == stored_place(stroke.points[i])
            &&& stroke.pressure.len() == 0 ==> now.pressure.len() == 0
            &&& stroke.pressure.len() > 0 ==> now.pressure.len() == now.points.len()
            &&& i < stroke.pressure.len() ==> now.pressure[i] == stored_pressure_spec(
                stroke.pressure[i],
            )
            &&& 0 < stroke.pressure.len() <= i ==> now.pressure[i] == stored_pressure_spec(
                stroke.pressure[stroke.pressure.len() - 1],
            )
        }),
{
    kept_of_storable(stroke.points);
}

proof fn kept_points_without(points: Seq<Place>, pressure: Seq<Steps>, i: int)
    requires
        0 <= i < points.len(),
        !storable(points[i]),
        pressure.len() == points.len(),
    ensures
        kept(points.remove(i)).len() == kept(points).len(),
        kept_points(points.remove(i)) == kept_points(points),
        points.len() > 1 ==> kept_pressure(points.remove(i), pressure.remove(i)) == kept_pressure(
            points,
            pressure,
        ),
    decreases points.len(),
{
    let (less, fewer) = (points.remove(i), pressure.remove(i));
    kept_is_inside(points);
    kept_is_inside(points.drop_last());
    if i == points.len() - 1 {
        assert(less =~= points.drop_last());
        assert(kept_points(less) =~= kept_points(points));
        if points.len() > 1 {
            assert(kept_pressure(less, fewer) =~= kept_pressure(points, pressure));
        }
    } else {
        let (before, pressed) = (points.drop_last(), pressure.drop_last());
        kept_points_without(before, pressed, i);
        kept_is_inside(less.drop_last());
        assert(less.drop_last() =~= before.remove(i));
        assert(fewer.drop_last() =~= pressed.remove(i));
        assert(less.last() == points.last() && fewer.last() == pressure.last());
        assert forall|k: int| 0 <= k < kept(points).len() implies #[trigger] kept_points(
            less,
        )[k] == kept_points(points)[k] by {
            if k < kept(before).len() {
                assert(kept_points(before)[k] == kept_points(before.remove(i))[k]);
                assert(less[kept(before.remove(i))[k]] == before.remove(i)[kept(
                    before.remove(i),
                )[k]]);
            }
        }
        assert(kept_points(less) =~= kept_points(points));
        if before.len() > 1 {
            assert forall|k: int| 0 <= k < kept(points).len() implies #[trigger] kept_pressure(
                less,
                fewer,
            )[k] == kept_pressure(points, pressure)[k] by {
                if k < kept(before).len() {
                    assert(kept_pressure(before, pressed)[k] == kept_pressure(
                        before.remove(i),
                        pressed.remove(i),
                    )[k]);
                    assert(fewer[kept(before.remove(i))[k]] == pressed.remove(i)[kept(
                        before.remove(i),
                    )[k]]);
                }
            }
        } else {
            assert(kept(before) =~= Seq::empty()) by {
                assert(before.drop_last() =~= Seq::empty());
            }
            assert(kept(less.drop_last()) =~= Seq::empty());
        }
        assert(kept_pressure(less, fewer) =~= kept_pressure(points, pressure));
    }
}

/// A point that is not finite makes no difference to a stroke: without it,
/// and without its pressure, the stroke is the same.
pub proof fn a_point_that_is_not_finite_is_no_point(stroke: StrokeView, i: int)
    requires
        0 <= i < stroke.points.len(),
        stroke.points.len() > 1,
        stroke.points[i].x.count is None || stroke.points[i].y.count is None,
        stroke.pressure.len() == stroke.points.len(),
    ensures
        stroke.sanitised() == (StrokeView {
            points: stroke.points.remove(i),
            pressure: stroke.pressure.remove(i),
            ..stroke
        }).sanitised(),
        (StrokeView { pressure: Seq::empty(), ..stroke }).sanitised() == (StrokeView {
            points: stroke.points.remove(i),
            pressure: Seq::empty(),
            ..stroke
        }).sanitised(),
{
    kept_points_without(stroke.points, stroke.pressure, i);
}

/// A point that is painted comes last, where it was painted; the points
/// before it, their pressures and the brush stay.
pub proof fn a_painted_point_comes_last(then: StrokeView, point: Place, pressed: Option<Steps>)
    ensures
        ({
            let now = then.pushed(point, pressed);
            &&& now.points.len() == then.points.len() + 1
            &&& now.points.last() == stored_place(point)
            &&& now.points.drop_last() == then.points
            &&& now.size == then.size && now.feather == then.feather && now.flow == then.flow
            &&& now.erase == then.erase && now.auto == then.auto
            &&& now.sensitivity == then.sensitivity
            &&& now.pressure_size == then.pressure_size && now.pressure_flow == then.pressure_flow
        }),
{
    assert(then.pushed(point, pressed).points.drop_last() =~= then.points);
}

/// A stroke that has met no pen holds no pressures. The first pressure puts
/// the points before it at 1; from then on each pressure is kept, and a point
/// with none takes the pressure of the point before it.
pub proof fn a_painted_point_takes_its_pressure(
    then: StrokeView,
    point: Place,
    force: Steps,
    i: int,
)
    requires
        0 <= i < then.points.len(),
    ensures
        then.pressure.len() == 0 ==> then.pushed(point, None).pressure.len() == 0,
        then.pressure.len() == 0 ==> then.pushed(point, Some(force)).pressure.len()
            == then.points.len() + 1,
        then.pressure.len() == 0 ==> then.pushed(point, Some(force)).pressure[i].count == Some(
            1000i64,
        ),
        then.pressure.len() > 0 ==> then.pushed(point, Some(force)).pressure.drop_last()
            == then.pressure,
        then.pressure.len() > 0 ==> then.pushed(point, None).pressure.drop_last() == then.pressure,
        then.pressure.len() > 0 ==> then.pushed(point, None).pressure.last()
            == then.pressure.last(),
        then.pushed(point, Some(force)).pressure.last() == stored_pressure_spec(force),
{
    if then.pressure.len() > 0 {
        assert(then.pushed(point, Some(force)).pressure.drop_last() =~= then.pressure);
        assert(then.pushed(point, None).pressure.drop_last() =~= then.pressure);
    }
}

/// A grown stroke has the brush of the earlier one and its path at the start.
pub proof fn a_grown_stroke_begins_as_the_earlier(now: StrokeView, then: StrokeView, i: int)
    requires
        grown(now, then),
        0 <= i < then.points.len(),
    ensures
        now.points.len() >= then.points.len(),
        now.points[i].x.equals(then.points[i].x) && now.points[i].y.equals(then.points[i].y),
        now.size.equals(then.size) && now.feather.equals(then.feather),
        now.flow.equals(then.flow) && now.sensitivity.equals(then.sensitivity),
        now.erase == then.erase && now.auto == then.auto,
        now.pressure_size == then.pressure_size && now.pressure_flow == then.pressure_flow,
        i < now.pressure.len() && i < then.pressure.len() ==> now.pressure[i].equals(
            then.pressure[i],
        ),
        then.pressure.len() == 0 && i < now.pressure.len() ==> now.pressure[i].count == Some(
            1000i64,
        ),
{
    assert(now.points[i].equals(then.points[i]));
    if now.pressure.len() > 0 || then.pressure.len() > 0 {
        assert(pressure_at_spec(now.pressure, i).equals(pressure_at_spec(then.pressure, i)));
    }
}

/// The pressure at a point is the one the stroke holds for it, and a full one
/// where it holds none.
pub proof fn the_pressure_at_a_point(pressure: Seq<Steps>, i: int)
    ensures
        0 <= i < pressure.len() ==> pressure_at_spec(pressure, i) == pressure[i],
        i >= pressure.len() ==> pressure_at_spec(pressure, i).count == Some(1000i64),
{
}

/// A straight line goes on from the last point of the last stroke that has
/// one, and from nowhere when none has.
pub proof fn a_line_goes_on_from_the_last_point(strokes: Seq<StrokeView>, k: int)
    requires
        forall|j: int| k < j < strokes.len() ==> (#[trigger] strokes[j]).points.len() == 0,
        -1 <= k < strokes.len(),
        k >= 0 ==> strokes[k].points.len() > 0,
    ensures
        k >= 0 ==> last_place(strokes) == Some(
            strokes[k].points[strokes[k].points.len() - 1],
        ),
        k == -1 ==> last_place(strokes) is None,
    decreases strokes.len(),
{
    if strokes.len() > 0 && k < strokes.len() - 1 {
        assert(strokes[strokes.len() - 1].points.len() == 0);
        assert forall|j: int| k < j < strokes.drop_last().len() implies (
        #[trigger] strokes.drop_last()[j]).points.len() == 0 by {
            assert(strokes[j].points.len() == 0);
        }
        a_line_goes_on_from_the_last_point(strokes.drop_last(), k);
    }
}

/// Equal strokes agree in every point, every pressure and the whole brush.
pub proof fn equal_strokes_agree(a: StrokeView, b: StrokeView, i: int)
    requires
        a.equals(b),
        0 <= i < a.points.len(),
    ensures
        a.points.len() == b.points.len(),
        a.points[i].x.equals(b.points[i].x) && a.points[i].y.equals(b.points[i].y),
        a.pressure.len() == b.pressure.len(),
        i < a.pressure.len() ==> a.pressure[i].equals(b.pressure[i]),
        a.size.equals(b.size) && a.feather.equals(b.feather),
        a.flow.equals(b.flow) && a.sensitivity.equals(b.sensitivity),
        a.erase == b.erase && a.auto == b.auto,
        a.pressure_size == b.pressure_size && a.pressure_flow == b.pressure_flow,
{
    assert(a.points[i].equals(b.points[i]));
}

/// Two counts are equal when both are finite and the same.
pub proof fn equal_steps_agree(a: Steps, b: Steps)
    ensures
        a.equals(b) ==> a.count == b.count && a.count is Some,
        a.count is Some && a.count == b.count ==> a.equals(b),
{
}

/// Equal brushes have as many strokes, each equal to the one in its place.
pub proof fn equal_brushes_agree(a: Brush, b: Brush, i: int)
    requires
        a.equals(b),
        0 <= i < a@.len(),
    ensures
        a@.len() == b@.len(),
        a@[i].equals(b@[i]),
{
}

/// Strokes that agree in every point, every pressure and the whole brush are
/// equal, and strokes that erase and that paint never are.
pub proof fn strokes_that_agree_are_equal(a: StrokeView, b: StrokeView)
    requires
        a.points.len() == b.points.len(),
        forall|i: int|
            0 <= i < a.points.len() ==> (#[trigger] a.points[i]).x.equals(b.points[i].x)
                && a.points[i].y.equals(b.points[i].y),
        a.pressure.len() == b.pressure.len(),
        forall|i: int|
            0 <= i < a.pressure.len() ==> (#[trigger] a.pressure[i]).equals(b.pressure[i]),
        a.size.equals(b.size) && a.feather.equals(b.feather),
        a.flow.equals(b.flow) && a.sensitivity.equals(b.sensitivity),
        a.auto == b.auto,
        a.pressure_size == b.pressure_size && a.pressure_flow == b.pressure_flow,
    ensures
        a.erase == b.erase <==> a.equals(b),
{
}

/// A stroke that goes on as the earlier one did has grown from it: the same
/// brush, the same path at its start, and the same pressures there.
pub proof fn a_stroke_that_begins_as_the_earlier_has_grown(now: StrokeView, then: StrokeView)
    requires
        now.size.equals(then.size) && now.feather.equals(then.feather),
        now.flow.equals(then.flow) && now.sensitivity.equals(then.sensitivity),
        now.erase == then.erase && now.auto == then.auto,
        now.pressure_size == then.pressure_size && now.pressure_flow == then.pressure_flow,
        then.points.len() <= now.points.len(),
        forall|i: int|
            0 <= i < then.points.len() ==> (#[trigger] now.points[i]).x.equals(then.points[i].x)
                && now.points[i].y.equals(then.points[i].y),
        now.pressure.len() == 0 && then.pressure.len() == 0 || (now.pressure.len()
            == now.points.len() && then.pressure.len() == then.points.len() && forall|i: int|
            0 <= i < then.points.len() ==> (#[trigger] now.pressure[i]).equals(then.pressure[i])),
    ensures
        grown(now, then),
{
    if now.pressure.len() > 0 || then.pressure.len() > 0 {
        assert forall|i: int| 0 <= i < then.points.len() implies (#[trigger] pressure_at_spec(
            now.pressure,
            i,
        )).equals(pressure_at_spec(then.pressure, i)) by {
            assert(now.pressure[i].equals(then.pressure[i]));
        }
    }
}

/// A brush holds 2000 strokes of 4096 points, and its settings go from a
/// fifth of a thousandth to half of the photo, from 0 to 100 and from 1 to
/// 100.
pub proof fn a_sane_stroke_is_inside_its_limits(stroke: StrokeView, i: int)
    requires
        stroke.sane(),
        0 <= i < stroke.points.len(),
    ensures
        stroke.points.len() <= 4096,
        stroke.points[i].x.count is Some && -4_000_000 <= stroke.points[i].x.count->0 <= 5_000_000,
        stroke.points[i].y.count is Some && -4_000_000 <= stroke.points[i].y.count->0 <= 5_000_000,
        stroke.pressure.len() == 0 || stroke.pressure.len() == stroke.points.len(),
        i < stroke.pressure.len() ==> stroke.pressure[i].count is Some && 0
            <= stroke.pressure[i].count->0 <= 1000,
        0x3951_b717 <= stroke.size.bits <= 0x3f00_0000,
        stroke.feather.bits <= 0x42c8_0000 || stroke.feather.bits == 0x8000_0000,
        0x3f80_0000 <= stroke.flow.bits <= 0x42c8_0000,
        stroke.sensitivity.bits <= 0x42c8_0000 || stroke.sensitivity.bits == 0x8000_0000,
        MAX_STROKES == 2000,
{
    assert(on_photo(stroke.points[i].x));
    if i < stroke.pressure.len() {
        assert(a_pressure(stroke.pressure[i]));
    }
}

} // verus!
