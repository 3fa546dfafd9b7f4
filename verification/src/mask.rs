//! Masks: what part of the picture an adjustment goes to. A mask is a list of
//! components, each a source (a gradient, a range or a brush) joined to what
//! the ones before it cover by add, subtract or intersect.

use crate::brush::{equal_brushes, Brush};
use crate::edit::{
    a_moved_slider_is_not_neutral, equal_adjustments, sliders_at_zero_leave_the_look, Adjustments,
    PhotoEdit,
};
use crate::look::{
    a_look_at_rest_is_the_identity, a_moved_range_is_no_identity, a_moved_wheel_is_no_identity,
    only_the_diagonal_changes_nothing, CurvePoint,
};
use crate::num::{at_one, at_zero, Single, HUNDRED, ONE, ZERO};
use crate::text::{
    ascii_lowercase, chars, decimal, digit, same_ignoring_ascii_case, write_decimal,
};
use vstd::prelude::*;
use vstd::string::*;

verus! {

/// The most masks an edit holds.
pub const MAX_MASKS: usize = 8;

/// The most components a mask holds.
pub const MAX_COMPONENTS: usize = 8;

/// The bits of a quarter.
pub const QUARTER: u32 = 0x3e80_0000;

/// The bits of three quarters.
pub const THREE_QUARTERS: u32 = 0x3f40_0000;

/// The bits of 0.5.
pub const MIDDLE: u32 = 0x3f00_0000;

/// The bits of 50.
pub const FIFTY: u32 = 0x4248_0000;

/// The bits of 0.01.
pub const HUNDREDTH: u32 = 0x3c23_d70a;

/// The bits of 0.1.
pub const TENTH: u32 = 0x3dcc_cccd;

/// The bits of 0.02.
pub const TWO_HUNDREDTHS: u32 = 0x3ca3_d70a;

/// The bits of 60.
pub const SIXTY: u32 = 0x4270_0000;

/// The bits of 20.
pub const TWENTY: u32 = 0x41a0_0000;

/// A gradient along a line: nothing at its start, everything at its end.
#[derive(Clone, Copy, Debug)]
pub struct LinearGradient {
    pub start_x: Single,
    pub start_y: Single,
    pub end_x: Single,
    pub end_y: Single,
}

impl LinearGradient {
    pub open spec fn default_spec() -> LinearGradient {
        LinearGradient {
            start_x: Single { bits: MIDDLE },
            start_y: Single { bits: THREE_QUARTERS },
            end_x: Single { bits: MIDDLE },
            end_y: Single { bits: QUARTER },
        }
    }

    pub open spec fn equals(self, other: LinearGradient) -> bool {
        &&& self.start_x.equals(other.start_x)
        &&& self.start_y.equals(other.start_y)
        &&& self.end_x.equals(other.end_x)
        &&& self.end_y.equals(other.end_y)
    }
}

impl PartialEq for LinearGradient {
    fn eq(&self, other: &Self) -> (r: bool) {
        self.start_x == other.start_x && self.start_y == other.start_y && self.end_x == other.end_x && self.end_y == other.end_y
    }
}

impl vstd::std_specs::cmp::PartialEqSpecImpl for LinearGradient {
    open spec fn obeys_eq_spec() -> bool {
        true
    }

    open spec fn eq_spec(&self, other: &Self) -> bool {
        self.equals(*other)
    }
}

impl Default for LinearGradient {
    fn default() -> (r: Self)
        ensures
            r == LinearGradient::default_spec(),
    {
        LinearGradient {
            start_x: Single { bits: MIDDLE },
            start_y: Single { bits: THREE_QUARTERS },
            end_x: Single { bits: MIDDLE },
            end_y: Single { bits: QUARTER },
        }
    }
}

/// A turned ellipse: everything inside, falling to nothing at the rim across
/// the feather band.
#[derive(Clone, Copy, Debug)]
pub struct RadialGradient {
    pub centre_x: Single,
    pub centre_y: Single,
    pub radius_x: Single,
    pub radius_y: Single,
    pub rotation: Single,
    pub feather: Single,
}

impl RadialGradient {
    pub open spec fn default_spec() -> RadialGradient {
        RadialGradient {
            centre_x: Single { bits: MIDDLE },
            centre_y: Single { bits: MIDDLE },
            radius_x: Single { bits: QUARTER },
            radius_y: Single { bits: QUARTER },
            rotation: Single { bits: ZERO },
            feather: Single { bits: FIFTY },
        }
    }

    pub open spec fn equals(self, other: RadialGradient) -> bool {
        &&& self.centre_x.equals(other.centre_x)
        &&& self.centre_y.equals(other.centre_y)
        &&& self.radius_x.equals(other.radius_x)
        &&& self.radius_y.equals(other.radius_y)
        &&& self.rotation.equals(other.rotation)
        &&& self.feather.equals(other.feather)
    }
}

impl PartialEq for RadialGradient {
    fn eq(&self, other: &Self) -> (r: bool) {
        self.centre_x == other.centre_x && self.centre_y == other.centre_y && self.radius_x == other.radius_x && self.radius_y == other.radius_y && self.rotation == other.rotation && self.feather == other.feather
    }
}

impl vstd::std_specs::cmp::PartialEqSpecImpl for RadialGradient {
    open spec fn obeys_eq_spec() -> bool {
        true
    }

    open spec fn eq_spec(&self, other: &Self) -> bool {
        self.equals(*other)
    }
}

impl Default for RadialGradient {
    fn default() -> (r: Self)
        ensures
            r == RadialGradient::default_spec(),
    {
        RadialGradient {
            centre_x: Single { bits: MIDDLE },
            centre_y: Single { bits: MIDDLE },
            radius_x: Single { bits: QUARTER },
            radius_y: Single { bits: QUARTER },
            rotation: Single { bits: ZERO },
            feather: Single { bits: FIFTY },
        }
    }
}

/// A range of brightness.
#[derive(Clone, Copy, Debug)]
pub struct LuminanceRange {
    pub low: Single,
    pub high: Single,
    pub falloff: Single,
}

impl LuminanceRange {
    pub open spec fn default_spec() -> LuminanceRange {
        LuminanceRange {
            low: Single { bits: MIDDLE },
            high: Single { bits: ONE },
            falloff: Single { bits: TENTH },
        }
    }

    pub open spec fn equals(self, other: LuminanceRange) -> bool {
        &&& self.low.equals(other.low)
        &&& self.high.equals(other.high)
        &&& self.falloff.equals(other.falloff)
    }
}

impl PartialEq for LuminanceRange {
    fn eq(&self, other: &Self) -> (r: bool) {
        self.low == other.low && self.high == other.high && self.falloff == other.falloff
    }
}

impl vstd::std_specs::cmp::PartialEqSpecImpl for LuminanceRange {
    open spec fn obeys_eq_spec() -> bool {
        true
    }

    open spec fn eq_spec(&self, other: &Self) -> bool {
        self.equals(*other)
    }
}

impl Default for LuminanceRange {
    fn default() -> (r: Self)
        ensures
            r == LuminanceRange::default_spec(),
    {
        LuminanceRange {
            low: Single { bits: MIDDLE },
            high: Single { bits: ONE },
            falloff: Single { bits: TENTH },
        }
    }
}

impl LuminanceRange {
    /// The range with its ends in order.
    pub open spec fn ordered_spec(self) -> LuminanceRange {
        if self.high.below(self.low) {
            LuminanceRange { low: self.high, high: self.low, falloff: self.falloff }
        } else {
            self
        }
    }

    /// The range with its ends in order: two sliders that passed each other
    /// change places.
    pub fn ordered(self) -> (r: LuminanceRange)
        ensures
            r == self.ordered_spec(),
            !self.low.is_nan_spec() && !self.high.is_nan_spec() ==> r.low.at_most(r.high),
    {
        if self.high.is_below(self.low) {
            LuminanceRange { low: self.high, high: self.low, falloff: self.falloff }
        } else {
            self
        }
    }
}

/// A range of hue, in degrees.
#[derive(Clone, Copy, Debug)]
pub struct ColourRange {
    pub hue: Single,
    pub hue_width: Single,
    pub chroma_low: Single,
    pub falloff: Single,
}

impl ColourRange {
    pub open spec fn default_spec() -> ColourRange {
        ColourRange {
            hue: Single { bits: ZERO },
            hue_width: Single { bits: SIXTY },
            chroma_low: Single { bits: TWO_HUNDREDTHS },
            falloff: Single { bits: TWENTY },
        }
    }

    pub open spec fn equals(self, other: ColourRange) -> bool {
        &&& self.hue.equals(other.hue)
        &&& self.hue_width.equals(other.hue_width)
        &&& self.chroma_low.equals(other.chroma_low)
        &&& self.falloff.equals(other.falloff)
    }
}

impl PartialEq for ColourRange {
    fn eq(&self, other: &Self) -> (r: bool) {
        self.hue == other.hue && self.hue_width == other.hue_width && self.chroma_low == other.chroma_low && self.falloff == other.falloff
    }
}

impl vstd::std_specs::cmp::PartialEqSpecImpl for ColourRange {
    open spec fn obeys_eq_spec() -> bool {
        true
    }

    open spec fn eq_spec(&self, other: &Self) -> bool {
        self.equals(*other)
    }
}

impl Default for ColourRange {
    fn default() -> (r: Self)
        ensures
            r == ColourRange::default_spec(),
    {
        ColourRange {
            hue: Single { bits: ZERO },
            hue_width: Single { bits: SIXTY },
            chroma_low: Single { bits: TWO_HUNDREDTHS },
            falloff: Single { bits: TWENTY },
        }
    }
}

/// Refine edges: how far the edge of a mask moves onto the nearest place where
/// the colour changes.
#[derive(Clone, Copy, Debug)]
pub struct Refine {
    pub amount: Single,
    pub radius: Single,
    pub sensitivity: Single,
}

impl Refine {
    pub open spec fn default_spec() -> Refine {
        Refine {
            amount: Single { bits: ZERO },
            radius: Single { bits: HUNDREDTH },
            sensitivity: Single { bits: FIFTY },
        }
    }

    pub open spec fn equals(self, other: Refine) -> bool {
        &&& self.amount.equals(other.amount)
        &&& self.radius.equals(other.radius)
        &&& self.sensitivity.equals(other.sensitivity)
    }
}

impl PartialEq for Refine {
    fn eq(&self, other: &Self) -> (r: bool) {
        self.amount == other.amount && self.radius == other.radius && self.sensitivity == other.sensitivity
    }
}

impl vstd::std_specs::cmp::PartialEqSpecImpl for Refine {
    open spec fn obeys_eq_spec() -> bool {
        true
    }

    open spec fn eq_spec(&self, other: &Self) -> bool {
        self.equals(*other)
    }
}

impl Default for Refine {
    fn default() -> (r: Self)
        ensures
            r == Refine::default_spec(),
    {
        Refine {
            amount: Single { bits: ZERO },
            radius: Single { bits: HUNDREDTH },
            sensitivity: Single { bits: FIFTY },
        }
    }
}

/// The three edge controls of a mask.
#[derive(Clone, Copy, Debug)]
pub struct Edge {
    pub shift: Single,
    pub feather: Single,
    pub contrast: Single,
}

impl Edge {
    pub open spec fn default_spec() -> Edge {
        Edge {
            shift: Single { bits: ZERO },
            feather: Single { bits: ZERO },
            contrast: Single { bits: ZERO },
        }
    }

    pub open spec fn equals(self, other: Edge) -> bool {
        &&& self.shift.equals(other.shift)
        &&& self.feather.equals(other.feather)
        &&& self.contrast.equals(other.contrast)
    }
}

impl PartialEq for Edge {
    fn eq(&self, other: &Self) -> (r: bool) {
        self.shift == other.shift && self.feather == other.feather && self.contrast == other.contrast
    }
}

impl vstd::std_specs::cmp::PartialEqSpecImpl for Edge {
    open spec fn obeys_eq_spec() -> bool {
        true
    }

    open spec fn eq_spec(&self, other: &Self) -> bool {
        self.equals(*other)
    }
}

impl Default for Edge {
    fn default() -> (r: Self)
        ensures
            r == Edge::default_spec(),
    {
        Edge {
            shift: Single { bits: ZERO },
            feather: Single { bits: ZERO },
            contrast: Single { bits: ZERO },
        }
    }
}

/// How a component joins what the ones before it cover.
#[derive(Clone, Copy, Debug, PartialEq, Eq, Structural)]
pub enum MaskOp {
    Add,
    Subtract,
    Intersect,
}

impl MaskOp {
    pub open spec fn label_spec(self) -> Seq<char> {
        match self {
            MaskOp::Add => "Add"@,
            MaskOp::Subtract => "Subtract"@,
            MaskOp::Intersect => "Intersect"@,
        }
    }

    /// The word on the button.
    pub fn label(self) -> (r: &'static str)
        ensures
            r@ == self.label_spec(),
    {
        match self {
            MaskOp::Add => "Add",
            MaskOp::Subtract => "Subtract",
            MaskOp::Intersect => "Intersect",
        }
    }
}

impl Default for MaskOp {
    fn default() -> (r: Self)
        ensures
            r == MaskOp::Add,
    {
        MaskOp::Add
    }
}

/// What a component measures.
#[derive(Debug)]
pub enum MaskSource {
    Linear(LinearGradient),
    Radial(RadialGradient),
    Luminance(LuminanceRange),
    Colour(ColourRange),
    Brush(Brush),
}

impl MaskSource {
    /// The same source to the bit.
    pub open spec fn copy_of(self, other: MaskSource) -> bool {
        match (self, other) {
            (MaskSource::Linear(a), MaskSource::Linear(b)) => a == b,
            (MaskSource::Radial(a), MaskSource::Radial(b)) => a == b,
            (MaskSource::Luminance(a), MaskSource::Luminance(b)) => a == b,
            (MaskSource::Colour(a), MaskSource::Colour(b)) => a == b,
            (MaskSource::Brush(a), MaskSource::Brush(b)) => a@ == b@,
            _ => false,
        }
    }

    pub open spec fn equals(self, other: MaskSource) -> bool {
        match (self, other) {
            (MaskSource::Linear(a), MaskSource::Linear(b)) => a.equals(b),
            (MaskSource::Radial(a), MaskSource::Radial(b)) => a.equals(b),
            (MaskSource::Luminance(a), MaskSource::Luminance(b)) => a.equals(b),
            (MaskSource::Colour(a), MaskSource::Colour(b)) => a.equals(b),
            (MaskSource::Brush(a), MaskSource::Brush(b)) => a.equals(b),
            _ => false,
        }
    }

    pub open spec fn label_spec(self) -> Seq<char> {
        match self {
            MaskSource::Linear(_) => "Linear gradient"@,
            MaskSource::Radial(_) => "Radial gradient"@,
            MaskSource::Luminance(_) => "Luminance range"@,
            MaskSource::Colour(_) => "Colour range"@,
            MaskSource::Brush(_) => "Brush"@,
        }
    }

    /// The name of the source in the panel.
    pub fn label(&self) -> (r: &'static str)
        ensures
            r@ == self.label_spec(),
    {
        match self {
            MaskSource::Linear(_) => "Linear gradient",
            MaskSource::Radial(_) => "Radial gradient",
            MaskSource::Luminance(_) => "Luminance range",
            MaskSource::Colour(_) => "Colour range",
            MaskSource::Brush(_) => "Brush",
        }
    }

    /// Whether the source is a range, measured on the pixel and not on the
    /// place.
    pub fn reads_the_pixel(&self) -> (r: bool)
        ensures
            r == (self is Luminance || self is Colour),
    {
        match self {
            MaskSource::Luminance(_) => true,
            MaskSource::Colour(_) => true,
            _ => false,
        }
    }
}

impl Clone for MaskSource {
    fn clone(&self) -> (r: Self)
        ensures
            r.copy_of(*self),
    {
        match self {
            MaskSource::Linear(gradient) => MaskSource::Linear(*gradient),
            MaskSource::Radial(gradient) => MaskSource::Radial(*gradient),
            MaskSource::Luminance(range) => MaskSource::Luminance(*range),
            MaskSource::Colour(range) => MaskSource::Colour(*range),
            MaskSource::Brush(brush) => MaskSource::Brush(brush.clone()),
        }
    }
}

impl PartialEq for MaskSource {
    fn eq(&self, other: &Self) -> (r: bool) {
        match (self, other) {
            (MaskSource::Linear(a), MaskSource::Linear(b)) => *a == *b,
            (MaskSource::Radial(a), MaskSource::Radial(b)) => *a == *b,
            (MaskSource::Luminance(a), MaskSource::Luminance(b)) => *a == *b,
            (MaskSource::Colour(a), MaskSource::Colour(b)) => *a == *b,
            (MaskSource::Brush(a), MaskSource::Brush(b)) => *a == *b,
            _ => false,
        }
    }
}

impl vstd::std_specs::cmp::PartialEqSpecImpl for MaskSource {
    open spec fn obeys_eq_spec() -> bool {
        true
    }

    open spec fn eq_spec(&self, other: &Self) -> bool {
        self.equals(*other)
    }
}

impl Default for MaskSource {
    fn default() -> (r: Self)
        ensures
            r == MaskSource::Linear(LinearGradient::default_spec()),
    {
        MaskSource::Linear(LinearGradient::default())
    }
}

/// One component of a mask.
#[derive(Debug)]
pub struct Component {
    pub op: MaskOp,
    pub source: MaskSource,
    pub invert: bool,
}

impl Component {
    pub open spec fn copy_of(self, other: Component) -> bool {
        self.op == other.op && self.source.copy_of(other.source) && self.invert == other.invert
    }

    pub open spec fn equals(self, other: Component) -> bool {
        self.op == other.op && self.source.equals(other.source) && self.invert == other.invert
    }

    /// A component that adds a source.
    pub fn new(source: MaskSource) -> (r: Component)
        ensures
            r == (Component { op: MaskOp::Add, source, invert: false }),
    {
        Component { op: MaskOp::Add, source, invert: false }
    }
}

impl Clone for Component {
    fn clone(&self) -> (r: Self)
        ensures
            r.copy_of(*self),
    {
        Component { op: self.op, source: self.source.clone(), invert: self.invert }
    }
}

impl PartialEq for Component {
    fn eq(&self, other: &Self) -> (r: bool) {
        self.op == other.op && self.source == other.source && self.invert == other.invert
    }
}

impl vstd::std_specs::cmp::PartialEqSpecImpl for Component {
    open spec fn obeys_eq_spec() -> bool {
        true
    }

    open spec fn eq_spec(&self, other: &Self) -> bool {
        self.equals(*other)
    }
}

/// A mask: where an adjustment goes and what it is.
#[derive(Debug)]
pub struct Mask {
    pub name: String,
    pub enabled: bool,
    /// How much of the adjustment applies, 0 to 100.
    pub opacity: Single,
    pub invert: bool,
    pub components: Vec<Component>,
    pub adjust: Adjustments,
    pub refine: Refine,
    pub edge: Edge,
}

/// Two lists of components that are the same to the bit.
pub open spec fn components_copied(a: Seq<Component>, b: Seq<Component>) -> bool {
    a.len() == b.len() && forall|i: int| 0 <= i < a.len() ==> (#[trigger] a[i]).copy_of(b[i])
}

pub open spec fn components_equal(a: Seq<Component>, b: Seq<Component>) -> bool {
    a.len() == b.len() && forall|i: int| 0 <= i < a.len() ==> (#[trigger] a[i]).equals(b[i])
}

/// Two lists of masks that are the same to the bit.
pub open spec fn masks_copied(a: Seq<Mask>, b: Seq<Mask>) -> bool {
    a.len() == b.len() && forall|i: int| 0 <= i < a.len() ==> (#[trigger] a[i]).copy_of(b[i])
}

pub open spec fn masks_equal(a: Seq<Mask>, b: Seq<Mask>) -> bool {
    a.len() == b.len() && forall|i: int| 0 <= i < a.len() ==> (#[trigger] a[i]).equals(b[i])
}

impl Mask {
    /// The same mask to the bit.
    pub open spec fn copy_of(self, other: Mask) -> bool {
        &&& self.name@ == other.name@
        &&& self.enabled == other.enabled
        &&& self.opacity == other.opacity
        &&& self.invert == other.invert
        &&& components_copied(self.components@, other.components@)
        &&& self.adjust.copy_of(other.adjust)
        &&& self.refine == other.refine
        &&& self.edge == other.edge
    }

    pub open spec fn equals(self, other: Mask) -> bool {
        &&& self.name@ == other.name@
        &&& self.enabled == other.enabled
        &&& self.opacity.equals(other.opacity)
        &&& self.invert == other.invert
        &&& components_equal(self.components@, other.components@)
        &&& self.adjust.equals(other.adjust)
        &&& self.refine.equals(other.refine)
        &&& self.edge.equals(other.edge)
    }

    /// A mask of one component, on and at full opacity, that adjusts nothing
    /// yet.
    pub fn new(name: &str, source: MaskSource) -> (r: Mask)
        ensures
            r.name@ == name@,
            r.enabled && !r.invert,
            r.opacity.bits == HUNDRED,
            r.components@ == seq![Component { op: MaskOp::Add, source, invert: false }],
            r.adjust.at_rest(),
            r.refine == Refine::default_spec(),
            r.edge == Edge::default_spec(),
    {
        let mut components: Vec<Component> = Vec::new();
        components.push(Component::new(source));
        assert(components@ =~= seq![Component { op: MaskOp::Add, source, invert: false }]);
        Mask {
            name: name.to_owned(),
            enabled: true,
            opacity: Single { bits: HUNDRED },
            invert: false,
            components,
            adjust: Adjustments::default(),
            refine: Refine::default(),
            edge: Edge::default(),
        }
    }

    /// Whether the mask changes the picture: it is on, has some opacity and
    /// adjusts something.
    pub open spec fn active(self) -> bool {
        self.enabled && Single { bits: ZERO }.below(self.opacity) && !self.adjust.neutral()
    }

    /// Whether the mask changes the picture: it is on, has some opacity and
    /// adjusts something.
    pub fn is_active(&self) -> (r: bool)
        ensures
            r == self.active(),
            r <==> self.enabled && 0 < self.opacity.bits <= 0x7f80_0000 && something_moved(
                self.adjust,
            ),
    {
        proof {
            a_moved_part_is_not_neutral(self.adjust);
        }
        self.enabled && Single { bits: ZERO }.is_below(self.opacity) && !self.adjust.is_neutral()
    }
}

impl Clone for Mask {
    fn clone(&self) -> (r: Self)
        ensures
            r.copy_of(*self),
    {
        let mut components: Vec<Component> = Vec::new();
        let mut i: usize = 0;
        while i < self.components.len()
            invariant
                0 <= i <= self.components@.len(),
                components_copied(components@, self.components@.take(i as int)),
            decreases self.components.len() - i,
        {
            let component: Component = self.components[i].clone();
            components.push(component);
            i += 1;
        }
        assert(self.components@.take(i as int) =~= self.components@);
        Mask {
            name: self.name.clone(),
            enabled: self.enabled,
            opacity: self.opacity,
            invert: self.invert,
            components,
            adjust: self.adjust.clone(),
            refine: self.refine,
            edge: self.edge,
        }
    }
}

impl PartialEq for Mask {
    fn eq(&self, other: &Self) -> (r: bool) {
        if self.name != other.name || self.enabled != other.enabled || self.opacity != other.opacity
            || self.invert != other.invert || self.components.len() != other.components.len()
            || self.adjust != other.adjust || self.refine != other.refine || self.edge
            != other.edge {
            return false;
        }
        let mut i: usize = 0;
        while i < self.components.len()
            invariant
                0 <= i <= self.components@.len() == other.components@.len(),
                forall|k: int|
                    0 <= k < i ==> (#[trigger] self.components@[k]).equals(other.components@[k]),
            decreases self.components.len() - i,
        {
            if self.components[i] != other.components[i] {
                assert(!self.components@[i as int].equals(other.components@[i as int]));
                return false;
            }
            i += 1;
        }
        true
    }
}

impl vstd::std_specs::cmp::PartialEqSpecImpl for Mask {
    open spec fn obeys_eq_spec() -> bool {
        true
    }

    open spec fn eq_spec(&self, other: &Self) -> bool {
        self.equals(*other)
    }
}

impl Default for Mask {
    fn default() -> (r: Self)
        ensures
            r.name@.len() == 0,
            r.enabled && !r.invert,
            r.opacity.bits == HUNDRED,
            r.components@.len() == 0,
            r.adjust.at_rest(),
            r.refine == Refine::default_spec(),
            r.edge == Edge::default_spec(),
    {
        Mask {
            name: String::new(),
            enabled: true,
            opacity: Single { bits: HUNDRED },
            invert: false,
            components: Vec::new(),
            adjust: Adjustments::default(),
            refine: Refine::default(),
            edge: Edge::default(),
        }
    }
}

/// A copy of a mask compares as the mask does.
pub proof fn a_copy_compares_as_the_mask(copy: Mask, mask: Mask, other: Mask)
    requires
        copy.copy_of(mask),
    ensures
        copy.equals(other) == mask.equals(other),
        other.equals(copy) == other.equals(mask),
{
    if mask.components@.len() == other.components@.len() {
        assert forall|i: int| 0 <= i < mask.components@.len() implies {
            &&& (#[trigger] copy.components@[i]).equals(other.components@[i])
                == mask.components@[i].equals(other.components@[i])
            &&& other.components@[i].equals(copy.components@[i]) == other.components@[i].equals(
                mask.components@[i],
            )
        } by {
            assert(copy.components@[i].copy_of(mask.components@[i]));
        }
        if components_equal(copy.components@, other.components@) {
            assert forall|i: int| 0 <= i < mask.components@.len() implies (
            #[trigger] mask.components@[i]).equals(other.components@[i]) by {
                assert(copy.components@[i].equals(other.components@[i]));
            }
        }
        if components_equal(other.components@, copy.components@) {
            assert forall|i: int| 0 <= i < mask.components@.len() implies (
            #[trigger] other.components@[i]).equals(mask.components@[i]) by {
                assert(other.components@[i].equals(copy.components@[i]));
            }
        }
        if components_equal(other.components@, mask.components@) {
            assert forall|i: int| 0 <= i < mask.components@.len() implies (
            #[trigger] other.components@[i]).equals(copy.components@[i]) by {
                assert(copy.components@[i].equals(other.components@[i])
                    == mask.components@[i].equals(other.components@[i]));
            }
        }
    }
    assert(copy.adjust.equals(other.adjust) == mask.adjust.equals(other.adjust));
    assert(other.adjust.equals(copy.adjust) == other.adjust.equals(mask.adjust));
}

/// Whether a mask of the list has this name; case does not tell ASCII names
/// apart.
pub open spec fn name_taken(masks: Seq<Mask>, name: Seq<char>) -> bool {
    exists|i: int|
        0 <= i < masks.len() && ascii_lowercase(#[trigger] masks[i].name@) == ascii_lowercase(name)
}

/// The name with a number behind it; the first of a kind has none.
pub open spec fn numbered(base: Seq<char>, number: nat) -> Seq<char> {
    if number <= 1 {
        base
    } else {
        base + " "@ + decimal(number)
    }
}

fn is_taken(masks: &Vec<Mask>, name: &str) -> (r: bool)
    ensures
        r == name_taken(masks@, name@),
{
    let wanted: Vec<char> = chars(name);
    let mut i: usize = 0;
    while i < masks.len()
        invariant
            0 <= i <= masks@.len(),
            wanted@ == name@,
            forall|k: int|
                0 <= k < i ==> ascii_lowercase(#[trigger] masks@[k].name@) != ascii_lowercase(
                    name@,
                ),
        decreases masks.len() - i,
    {
        let held: Vec<char> = chars(masks[i].name.as_str());
        if same_ignoring_ascii_case(&held, &wanted) {
            assert(ascii_lowercase(masks@[i as int].name@) == ascii_lowercase(name@));
            return true;
        }
        i += 1;
    }
    false
}

/// A name for a new mask that no mask has: the word itself, or the word with
/// the first number from 2 that is free.
pub fn free_name(masks: &Vec<Mask>, base: &str) -> (r: String)
    requires
        masks@.len() < u64::MAX - 1,
    ensures
        !name_taken(masks@, r@),
        !name_taken(masks@, base@) ==> r@ == base@,
        exists|number: nat|
            {
                &&& 1 <= number <= masks@.len() + 1
                &&& r@ == #[trigger] numbered(base@, number)
                &&& forall|k: nat|
                    1 <= k < number ==> name_taken(masks@, #[trigger] numbered(base@, k))
            },
{
    let mut number: u64 = 1;
    let ghost mut holders: Seq<int> = Seq::empty();
    loop
        invariant
            1 <= number <= masks@.len() + 1 < u64::MAX,
            holders.len() == number - 1,
            forall|k: int|
                0 <= k < holders.len() ==> 0 <= #[trigger] holders[k] < masks@.len()
                    && ascii_lowercase(masks@[holders[k]].name@) == ascii_lowercase(
                    numbered(base@, (k + 1) as nat),
                ),
            forall|k: nat|
                1 <= k < number ==> name_taken(masks@, #[trigger] numbered(base@, k)),
        decreases masks@.len() + 1 - number,
    {
        let mut name: String = base.to_owned();
        if number > 1 {
            name.append(" ");
            let digits: String = write_decimal(number);
            name.append(digits.as_str());
        }
        assert(name@ =~= numbered(base@, number as nat));
        if !is_taken(masks, name.as_str()) {
            assert(number > 1 ==> name_taken(masks@, numbered(base@, 1)));
            return name;
        }
        proof {
            let i = choose|i: int|
                0 <= i < masks@.len() && ascii_lowercase(#[trigger] masks@[i].name@)
                    == ascii_lowercase(name@);
            holders = holders.push(i);
            assert forall|k: int| 0 <= k < holders.len() implies 0 <= #[trigger] holders[k]
                < masks@.len() && ascii_lowercase(masks@[holders[k]].name@) == ascii_lowercase(
                numbered(base@, (k + 1) as nat),
            ) by {}
            holders_are_apart(masks@, base@, holders);
        }
        number += 1;
    }
}

/// Masks that hold differently numbered names are different masks, so there
/// are no more of them than masks.
proof fn holders_are_apart(masks: Seq<Mask>, base: Seq<char>, holders: Seq<int>)
    requires
        forall|k: int|
            0 <= k < holders.len() ==> 0 <= #[trigger] holders[k] < masks.len() && ascii_lowercase(
                masks[holders[k]].name@,
            ) == ascii_lowercase(numbered(base, (k + 1) as nat)),
    ensures
        holders.len() <= masks.len(),
{
    assert forall|i: int, j: int| 0 <= i < j < holders.len() implies holders[i] != holders[j] by {
        if holders[i] == holders[j] {
            numbered_names_differ(base, (i + 1) as nat, (j + 1) as nat);
        }
    }
    assert(holders.no_duplicates());
    holders.unique_seq_to_set();
    let all = vstd::set_lib::set_int_range(0, masks.len() as int);
    vstd::set_lib::lemma_int_range(0, masks.len() as int);
    assert(holders.to_set().subset_of(all)) by {
        assert forall|x: int| holders.to_set().contains(x) implies all.contains(x) by {
            let k = choose|k: int| 0 <= k < holders.len() && holders[k] == x;
            assert(0 <= holders[k] < masks.len());
        }
    }
    vstd::set_lib::lemma_len_subset(holders.to_set(), all);
}

/// Two different numbers give two different names, in any case of the letters.
proof fn numbered_names_differ(base: Seq<char>, a: nat, b: nat)
    requires
        1 <= a < b,
    ensures
        ascii_lowercase(numbered(base, a)) != ascii_lowercase(numbered(base, b)),
{
    reveal_strlit(" ");
    let (x, y) = (numbered(base, a), numbered(base, b));
    decimal_is_digits(b);
    decimal_is_digits(a);
    if ascii_lowercase(x) == ascii_lowercase(y) {
        assert(ascii_lowercase(x).len() == x.len());
        assert(ascii_lowercase(y).len() == y.len());
        assert(x.len() == y.len());
        if a == 1 {
            assert(y.len() > x.len());
        } else {
            let (p, q) = (decimal(a), decimal(b));
            assert(p.len() == q.len());
            assert forall|i: int| 0 <= i < p.len() implies p[i] == q[i] by {
                let at = base.len() + 1 + i;
                assert(x[at] == p[i]);
                assert(y[at] == q[i]);
                assert(ascii_lowercase(x)[at] == ascii_lowercase(y)[at]);
            }
            assert(p =~= q);
            decimal_tells_apart(a, b);
        }
    }
}

proof fn decimal_is_digits(value: nat)
    ensures
        decimal(value).len() >= 1,
        forall|i: int| 0 <= i < decimal(value).len() ==> '0' <= #[trigger] decimal(value)[i] <= '9',
    decreases value,
{
    if value >= 10 {
        decimal_is_digits(value / 10);
    }
}

proof fn decimal_tells_apart(a: nat, b: nat)
    requires
        decimal(a) == decimal(b),
    ensures
        a == b,
    decreases a,
{
    decimal_is_digits(a / 10);
    decimal_is_digits(b / 10);
    assert(digit(a % 10) as int == 48 + a % 10);
    assert(digit(b % 10) as int == 48 + b % 10);
    if a >= 10 && b >= 10 {
        assert(decimal(a).last() == digit(a % 10));
        assert(decimal(b).last() == digit(b % 10));
        assert(a % 10 == b % 10);
        assert(decimal(a).drop_last() =~= decimal(a / 10));
        assert(decimal(b).drop_last() =~= decimal(b / 10));
        decimal_tells_apart(a / 10, b / 10);
    } else if a < 10 && b < 10 {
        assert(decimal(a)[0] == digit(a % 10));
        assert(decimal(b)[0] == digit(b % 10));
    } else if a >= 10 {
        assert(decimal(a) == decimal(a / 10).push(digit(a % 10)));
        assert(decimal(b).len() == 1);
    } else {
        assert(decimal(b) == decimal(b / 10).push(digit(b % 10)));
        assert(decimal(a).len() == 1);
    }
}

/// The places in a list of the masks that change the picture, in list order.
pub open spec fn active_places(masks: Seq<Mask>) -> Seq<usize>
    decreases masks.len(),
{
    if masks.len() == 0 {
        Seq::empty()
    } else {
        let rest = active_places(masks.drop_last());
        if masks.last().active() {
            rest.push((masks.len() - 1) as usize)
        } else {
            rest
        }
    }
}

/// The masks of an edit that change the picture, in list order, each with the
/// index it has in the edit. `sanitised` are the masks of the edit with every
/// number inside its range.
pub fn active_masks(sanitised: &Vec<Mask>) -> (r: Vec<(usize, Mask)>)
    ensures
        r@.len() == active_places(sanitised@).len(),
        forall|i: int|
            0 <= i < r@.len() ==> (#[trigger] r@[i]).0 == active_places(sanitised@)[i]
                && r@[i].0 < sanitised@.len() && r@[i].1.copy_of(sanitised@[r@[i].0 as int]),
        forall|place: int|
            0 <= place < sanitised@.len() ==> ((#[trigger] sanitised@[place]).enabled && 0
                < sanitised@[place].opacity.bits <= 0x7f80_0000 && something_moved(
                sanitised@[place].adjust,
            ) <==> exists|i: int| 0 <= i < r@.len() && (#[trigger] r@[i]).0 == place),
{
    let mut out: Vec<(usize, Mask)> = Vec::new();
    let mut i: usize = 0;
    assert(sanitised@.take(0) =~= Seq::empty());
    while i < sanitised.len()
        invariant
            0 <= i <= sanitised@.len(),
            out@.len() == active_places(sanitised@.take(i as int)).len(),
            forall|k: int|
                0 <= k < out@.len() ==> (#[trigger] out@[k]).0 == active_places(
                    sanitised@.take(i as int),
                )[k] && out@[k].0 < i && out@[k].1.copy_of(sanitised@[out@[k].0 as int]),
        decreases sanitised.len() - i,
    {
        let ghost before = sanitised@.take(i as int);
        let ghost now = sanitised@.take(i + 1);
        assert(now.drop_last() =~= before);
        assert(now.last() == sanitised@[i as int]);
        if sanitised[i].is_active() {
            out.push((i, sanitised[i].clone()));
        }
        i += 1;
    }
    assert(sanitised@.take(i as int) =~= sanitised@);
    proof {
        let places = active_places(sanitised@);
        assert forall|place: int| 0 <= place < sanitised@.len() implies ((
        #[trigger] sanitised@[place]).enabled && 0 < sanitised@[place].opacity.bits <= 0x7f80_0000
            && something_moved(sanitised@[place].adjust) <==> exists|i: int|
            0 <= i < out@.len() && (#[trigger] out@[i]).0 == place) by {
            if sanitised@[place].enabled && 0 < sanitised@[place].opacity.bits <= 0x7f80_0000
                && something_moved(sanitised@[place].adjust) {
                a_mask_that_changes_the_picture_is_listed(sanitised@, place);
                let k = choose|k: int| 0 <= k < places.len() && places[k] == place as usize;
                assert(out@[k].0 == place);
            }
            if exists|i: int| 0 <= i < out@.len() && (#[trigger] out@[i]).0 == place {
                let k = choose|i: int| 0 <= i < out@.len() && (#[trigger] out@[i]).0 == place;
                a_listed_mask_changes_the_picture(sanitised@, k);
            }
        }
    }
    out
}

/// Equality of masks is symmetric and transitive.
pub proof fn equal_masks(a: Mask, b: Mask, c: Mask)
    ensures
        a.equals(b) ==> b.equals(a),
        a.equals(b) && b.equals(c) ==> a.equals(c),
{
    equal_adjustments(a.adjust, b.adjust, c.adjust);
    if a.equals(b) {
        assert forall|i: int| 0 <= i < b.components@.len() implies (
        #[trigger] b.components@[i]).equals(a.components@[i]) by {
            equal_components(a.components@[i], b.components@[i], b.components@[i]);
        }
        if b.equals(c) {
            assert forall|i: int| 0 <= i < a.components@.len() implies (
            #[trigger] a.components@[i]).equals(c.components@[i]) by {
                assert(b.components@[i].equals(c.components@[i]));
                equal_components(a.components@[i], b.components@[i], c.components@[i]);
            }
        }
    }
}

/// Equality of components is symmetric and transitive.
pub proof fn equal_components(a: Component, b: Component, c: Component)
    ensures
        a.equals(b) ==> b.equals(a),
        a.equals(b) && b.equals(c) ==> a.equals(c),
{
    match (a.source, b.source) {
        (MaskSource::Brush(p), MaskSource::Brush(q)) => {
            equal_brushes(p, q, q);
            match c.source {
                MaskSource::Brush(r) => {
                    equal_brushes(p, q, r);
                },
                _ => {},
            }
        },
        _ => {},
    }
}

/// Something of the adjustments is not at rest: a slider, a hue range, a
/// wheel or a curve.
pub open spec fn something_moved(adjust: Adjustments) -> bool {
    let look = adjust.look;
    let (s, m, h) = (look.wheels.shadows, look.wheels.midtones, look.wheels.highlights);
    ||| exists|i: int| 0 <= i < 13 && !at_zero(#[trigger] adjust.sliders()[i])
    ||| exists|i: int|
        0 <= i < 8 && !(at_zero((#[trigger] look.hsl@[i]).hue) && at_zero(look.hsl@[i].saturation)
            && at_zero(look.hsl@[i].luminance))
    ||| !at_zero(s.x) || !at_zero(s.y) || !at_zero(s.luminance)
    ||| !at_zero(m.x) || !at_zero(m.y) || !at_zero(m.luminance)
    ||| !at_zero(h.x) || !at_zero(h.y) || !at_zero(h.luminance)
    ||| bent(look.curves.master.points@) || bent(look.curves.red.points@) || bent(
        look.curves.green.points@,
    ) || bent(look.curves.blue.points@)
}

/// A curve that is more than the line from (0, 0) to (1, 1).
pub open spec fn bent(points: Seq<CurvePoint>) -> bool {
    !(points.len() == 2 && at_zero(points[0].x) && at_zero(points[0].y) && at_one(points[1].x)
        && at_one(points[1].y))
}

/// Every part of an adjustment that was moved counts, and nothing else does.
proof fn a_moved_part_is_not_neutral(adjust: Adjustments)
    ensures
        adjust.neutral() <==> !something_moved(adjust),
{
    let look = adjust.look;
    only_the_diagonal_changes_nothing(look.curves.master);
    only_the_diagonal_changes_nothing(look.curves.red);
    only_the_diagonal_changes_nothing(look.curves.green);
    only_the_diagonal_changes_nothing(look.curves.blue);
    if something_moved(adjust) {
        if exists|i: int| 0 <= i < 13 && !at_zero(#[trigger] adjust.sliders()[i]) {
            let i = choose|i: int| 0 <= i < 13 && !at_zero(#[trigger] adjust.sliders()[i]);
            a_moved_slider_is_not_neutral(adjust, i);
        } else if exists|i: int|
            0 <= i < 8 && !(at_zero((#[trigger] look.hsl@[i]).hue) && at_zero(
                look.hsl@[i].saturation,
            ) && at_zero(look.hsl@[i].luminance)) {
            let i = choose|i: int|
                0 <= i < 8 && !(at_zero((#[trigger] look.hsl@[i]).hue) && at_zero(
                    look.hsl@[i].saturation,
                ) && at_zero(look.hsl@[i].luminance));
            a_moved_range_is_no_identity(look, i);
        } else if !look.curves.identity() {
        } else {
            a_moved_wheel_is_no_identity(look);
        }
    } else {
        sliders_at_zero_leave_the_look(adjust);
        a_look_at_rest_is_the_identity(look);
    }
}

/// A mask is left out only when it cannot change the picture: one that is on,
/// whose opacity is a number above 0 and that adjusts anything is in the list
/// at its place, at half opacity as at full.
pub proof fn a_mask_that_changes_the_picture_is_listed(masks: Seq<Mask>, place: int)
    requires
        0 <= place < masks.len(),
        masks.len() <= usize::MAX,
        masks[place].enabled,
        0 < masks[place].opacity.bits <= 0x7f80_0000,
        something_moved(masks[place].adjust),
    ensures
        active_places(masks).contains(place as usize),
    decreases masks.len(),
{
    let rest = active_places(masks.drop_last());
    if place == masks.len() - 1 {
        a_moved_part_is_not_neutral(masks[place].adjust);
        assert(active_places(masks)[rest.len() as int] == place as usize);
    } else {
        a_mask_that_changes_the_picture_is_listed(masks.drop_last(), place);
        let k = choose|k: int| 0 <= k < rest.len() && rest[k] == place as usize;
        assert(active_places(masks)[k] == place as usize);
    }
}

/// Every place in the list belongs to a mask that is on, has an opacity above
/// 0 and adjusts something, and the places come in list order, each once.
pub proof fn a_listed_mask_changes_the_picture(masks: Seq<Mask>, k: int)
    requires
        masks.len() <= usize::MAX,
        0 <= k < active_places(masks).len(),
    ensures
        0 <= active_places(masks)[k] < masks.len(),
        masks[active_places(masks)[k] as int].enabled,
        0 < masks[active_places(masks)[k] as int].opacity.bits <= 0x7f80_0000,
        something_moved(masks[active_places(masks)[k] as int].adjust),
        k > 0 ==> active_places(masks)[k - 1] < active_places(masks)[k],
    decreases masks.len(),
{
    if masks.len() > 0 {
        let rest = active_places(masks.drop_last());
        if k < rest.len() {
            a_listed_mask_changes_the_picture(masks.drop_last(), k);
        } else {
            a_moved_part_is_not_neutral(masks.last().adjust);
            if k > 0 {
                a_listed_mask_changes_the_picture(masks.drop_last(), k - 1);
            }
        }
    }
}

/// The opacity of a mask decides nothing but whether it is above 0: two masks
/// that differ in an opacity above 0 are listed alike.
pub proof fn any_opacity_above_zero_counts(masks: Seq<Mask>, place: int, other: Mask)
    requires
        masks.len() <= usize::MAX,
        0 <= place < masks.len(),
        0 < masks[place].opacity.bits <= 0x7f80_0000,
        0 < other.opacity.bits <= 0x7f80_0000,
        other.enabled == masks[place].enabled,
        other.adjust == masks[place].adjust,
    ensures
        active_places(masks.update(place, other)) == active_places(masks),
    decreases masks.len(),
{
    let now = masks.update(place, other);
    if place == masks.len() - 1 {
        assert(now.drop_last() =~= masks.drop_last());
    } else {
        assert(now.drop_last() =~= masks.drop_last().update(place, other));
        any_opacity_above_zero_counts(masks.drop_last(), place, other);
    }
}

/// A range in order has its lesser end first, keeps its falloff, and is the
/// same range as before with or without its ends changed.
pub proof fn an_ordered_range_is_the_same_range(range: LuminanceRange)
    requires
        !range.low.is_nan_spec() && !range.high.is_nan_spec(),
    ensures
        range.ordered_spec().low.at_most(range.ordered_spec().high),
        range.low.at_most(range.high) ==> range.ordered_spec() == range,
        range.high.below(range.low) ==> range.ordered_spec().low == range.high
            && range.ordered_spec().high == range.low,
        range.ordered_spec().falloff == range.falloff,
{
}

/// Equal masks agree in every field.
pub proof fn equal_masks_agree(a: Mask, b: Mask, i: int)
    requires
        a.equals(b),
        0 <= i < a.components@.len(),
    ensures
        a.name@ == b.name@,
        a.enabled == b.enabled,
        a.opacity.equals(b.opacity),
        a.invert == b.invert,
        a.components@.len() == b.components@.len(),
        a.components@[i].op == b.components@[i].op,
        a.components@[i].invert == b.components@[i].invert,
        a.components@[i].source.equals(b.components@[i].source),
        a.adjust.equals(b.adjust),
        a.refine.amount.equals(b.refine.amount),
        a.refine.radius.equals(b.refine.radius),
        a.refine.sensitivity.equals(b.refine.sensitivity),
        a.edge.shift.equals(b.edge.shift),
        a.edge.feather.equals(b.edge.feather),
        a.edge.contrast.equals(b.edge.contrast),
{
    assert(a.components@[i].equals(b.components@[i]));
}

/// Equal sources are of one kind and agree in every number of it.
pub proof fn equal_sources_agree(a: MaskSource, b: MaskSource)
    requires
        a.equals(b),
    ensures
        a is Linear ==> b is Linear && ({
            let (p, q) = (a->Linear_0, b->Linear_0);
            &&& p.start_x.equals(q.start_x) && p.start_y.equals(q.start_y)
            &&& p.end_x.equals(q.end_x) && p.end_y.equals(q.end_y)
        }),
        a is Radial ==> b is Radial && ({
            let (p, q) = (a->Radial_0, b->Radial_0);
            &&& p.centre_x.equals(q.centre_x) && p.centre_y.equals(q.centre_y)
            &&& p.radius_x.equals(q.radius_x) && p.radius_y.equals(q.radius_y)
            &&& p.rotation.equals(q.rotation) && p.feather.equals(q.feather)
        }),
        a is Luminance ==> b is Luminance && ({
            let (p, q) = (a->Luminance_0, b->Luminance_0);
            &&& p.low.equals(q.low) && p.high.equals(q.high) && p.falloff.equals(q.falloff)
        }),
        a is Colour ==> b is Colour && ({
            let (p, q) = (a->Colour_0, b->Colour_0);
            &&& p.hue.equals(q.hue) && p.hue_width.equals(q.hue_width)
            &&& p.chroma_low.equals(q.chroma_low) && p.falloff.equals(q.falloff)
        }),
        a is Brush ==> b is Brush && a->Brush_0.equals(b->Brush_0),
{
}

/// A copy of a mask has every field of the mask to the bit.
pub proof fn a_copied_mask_is_the_mask(a: Mask, b: Mask, i: int)
    requires
        a.copy_of(b),
        0 <= i < b.components@.len(),
    ensures
        a.name@ == b.name@,
        a.enabled == b.enabled && a.opacity == b.opacity && a.invert == b.invert,
        a.components@.len() == b.components@.len(),
        a.components@[i].op == b.components@[i].op,
        a.components@[i].invert == b.components@[i].invert,
        a.components@[i].source.copy_of(b.components@[i].source),
        a.adjust.copy_of(b.adjust),
        a.refine == b.refine,
        a.edge == b.edge,
{
    assert(a.components@[i].copy_of(b.components@[i]));
}

/// The first of a kind has the word itself as its name, and each further one
/// the word, a space and its number.
pub proof fn a_numbered_name_is_the_word_and_the_number(base: Seq<char>, number: nat)
    ensures
        numbered(base, 1) == base,
        number >= 2 ==> numbered(base, number) == base + seq![' '] + decimal(number),
{
    reveal_strlit(" ");
    assert(" "@ =~= seq![' ']);
}

/// A name is taken when a mask has it, in whatever case of its ASCII letters,
/// and only then.
pub proof fn a_name_is_taken_by_the_mask_that_has_it(masks: Seq<Mask>, i: int, name: Seq<char>)
    requires
        0 <= i < masks.len(),
    ensures
        name_taken(masks, masks[i].name@),
        !name_taken(masks, name) ==> masks[i].name@ != name,
        name_taken(masks, name) == name_taken(masks, ascii_lowercase(name)),
        name_taken(Seq::<Mask>::empty(), name) == false,
{
    assert(ascii_lowercase(ascii_lowercase(name)) =~= ascii_lowercase(name));
}

/// Masks that agree in every field are equal.
pub proof fn masks_that_agree_are_equal(a: Mask, b: Mask)
    requires
        a.name@ == b.name@,
        a.enabled == b.enabled && a.opacity.equals(b.opacity) && a.invert == b.invert,
        a.components@.len() == b.components@.len(),
        forall|i: int|
            0 <= i < a.components@.len() ==> (#[trigger] a.components@[i]).op
                == b.components@[i].op && a.components@[i].invert == b.components@[i].invert
                && a.components@[i].source.equals(b.components@[i].source),
        a.adjust.equals(b.adjust),
        a.refine.amount.equals(b.refine.amount) && a.refine.radius.equals(b.refine.radius),
        a.refine.sensitivity.equals(b.refine.sensitivity),
        a.edge.shift.equals(b.edge.shift) && a.edge.feather.equals(b.edge.feather),
        a.edge.contrast.equals(b.edge.contrast),
    ensures
        a.equals(b),
{
}

/// Sources of one kind that agree in its numbers are equal.
pub proof fn sources_that_agree_are_equal(a: MaskSource, b: MaskSource)
    ensures
        a matches MaskSource::Linear(p) ==> (b matches MaskSource::Linear(q) ==> (p.start_x.equals(
            q.start_x,
        ) && p.start_y.equals(q.start_y) && p.end_x.equals(q.end_x) && p.end_y.equals(q.end_y)
            ==> a.equals(b))),
        a matches MaskSource::Radial(p) ==> (b matches MaskSource::Radial(q) ==> (
        p.centre_x.equals(q.centre_x) && p.centre_y.equals(q.centre_y) && p.radius_x.equals(
            q.radius_x,
        ) && p.radius_y.equals(q.radius_y) && p.rotation.equals(q.rotation) && p.feather.equals(
            q.feather,
        ) ==> a.equals(b))),
        a matches MaskSource::Luminance(p) ==> (b matches MaskSource::Luminance(q) ==> (
        p.low.equals(q.low) && p.high.equals(q.high) && p.falloff.equals(q.falloff) ==> a.equals(
            b,
        ))),
        a matches MaskSource::Colour(p) ==> (b matches MaskSource::Colour(q) ==> (p.hue.equals(
            q.hue,
        ) && p.hue_width.equals(q.hue_width) && p.chroma_low.equals(q.chroma_low)
            && p.falloff.equals(q.falloff) ==> a.equals(b))),
{
}

} // verus!
