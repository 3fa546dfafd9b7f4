//! The crop of a photo or a clip: one of the four aspects and the rectangle
//! of the picture that is kept.

use crate::num::{at_one, at_zero, Single, ONE, ZERO};
use vstd::prelude::*;

verus! {

/// The shapes a crop takes.
#[derive(Clone, Copy, Debug, PartialEq, Eq, Structural)]
pub enum CropAspect {
    Feed4x5,
    Square,
    Grid3x4,
    Story9x16,
}

impl CropAspect {
    pub open spec fn ratio_spec(self) -> (u32, u32) {
        match self {
            CropAspect::Feed4x5 => (4, 5),
            CropAspect::Square => (1, 1),
            CropAspect::Grid3x4 => (3, 4),
            CropAspect::Story9x16 => (9, 16),
        }
    }

    /// The width to the height, in whole numbers.
    pub fn ratio(self) -> (r: (u32, u32))
        ensures
            r == self.ratio_spec(),
            self is Feed4x5 ==> r == (4u32, 5u32),
            self is Square ==> r == (1u32, 1u32),
            self is Grid3x4 ==> r == (3u32, 4u32),
            self is Story9x16 ==> r == (9u32, 16u32),
    {
        match self {
            CropAspect::Feed4x5 => (4, 5),
            CropAspect::Square => (1, 1),
            CropAspect::Grid3x4 => (3, 4),
            CropAspect::Story9x16 => (9, 16),
        }
    }
}

impl Default for CropAspect {
    fn default() -> (r: Self)
        ensures
            r == CropAspect::Feed4x5,
    {
        CropAspect::Feed4x5
    }
}

/// A rectangle of the picture, each side from 0 to 1.
#[derive(Clone, Copy, Debug)]
pub struct CropRect {
    pub x: Single,
    pub y: Single,
    pub width: Single,
    pub height: Single,
}

impl CropRect {
    /// The whole picture.
    pub open spec fn full_spec() -> CropRect {
        CropRect {
            x: Single { bits: ZERO },
            y: Single { bits: ZERO },
            width: Single { bits: ONE },
            height: Single { bits: ONE },
        }
    }

    /// The whole picture.
    pub fn full() -> (r: CropRect)
        ensures
            r == CropRect::full_spec(),
    {
        CropRect {
            x: Single { bits: ZERO },
            y: Single { bits: ZERO },
            width: Single { bits: ONE },
            height: Single { bits: ONE },
        }
    }

    pub open spec fn equals(self, other: CropRect) -> bool {
        &&& self.x.equals(other.x)
        &&& self.y.equals(other.y)
        &&& self.width.equals(other.width)
        &&& self.height.equals(other.height)
    }

    /// Whether the rectangle is the whole picture.
    pub fn is_full(&self) -> (r: bool)
        ensures
            r == self.equals(CropRect::full_spec()),
    {
        *self == CropRect::full()
    }
}

impl PartialEq for CropRect {
    fn eq(&self, other: &Self) -> (r: bool) {
        self.x == other.x && self.y == other.y && self.width == other.width && self.height
            == other.height
    }
}

impl vstd::std_specs::cmp::PartialEqSpecImpl for CropRect {
    open spec fn obeys_eq_spec() -> bool {
        true
    }

    open spec fn eq_spec(&self, other: &Self) -> bool {
        self.equals(*other)
    }
}

impl Default for CropRect {
    fn default() -> (r: Self)
        ensures
            r == CropRect::full_spec(),
    {
        CropRect::full()
    }
}

/// The crop of a picture.
#[derive(Clone, Copy, Debug)]
pub struct Crop {
    pub aspect: CropAspect,
    pub rect: CropRect,
}

impl Crop {
    pub open spec fn default_spec() -> Crop {
        Crop { aspect: CropAspect::Feed4x5, rect: CropRect::full_spec() }
    }

    pub open spec fn equals(self, other: Crop) -> bool {
        self.aspect == other.aspect && self.rect.equals(other.rect)
    }
}

impl PartialEq for Crop {
    fn eq(&self, other: &Self) -> (r: bool) {
        self.aspect == other.aspect && self.rect == other.rect
    }
}

impl vstd::std_specs::cmp::PartialEqSpecImpl for Crop {
    open spec fn obeys_eq_spec() -> bool {
        true
    }

    open spec fn eq_spec(&self, other: &Self) -> bool {
        self.equals(*other)
    }
}

impl Default for Crop {
    fn default() -> (r: Self)
        ensures
            r == Crop::default_spec(),
    {
        Crop { aspect: CropAspect::default(), rect: CropRect::default() }
    }
}

/// Two equal crops agree in the shape and in every side, and a crop is the
/// whole picture only from 0 to 1 on both axes.
pub proof fn equal_crops_agree(a: Crop, b: Crop)
    requires
        a.equals(b),
    ensures
        a.aspect == b.aspect,
        a.rect.x.equals(b.rect.x) && a.rect.y.equals(b.rect.y),
        a.rect.width.equals(b.rect.width) && a.rect.height.equals(b.rect.height),
{
}

/// A crop equals itself when its sides are numbers, and a copy of it in which
/// only the sign of a zero changed.
pub proof fn a_crop_equals_itself(a: Crop, b: Crop)
    requires
        a.aspect == b.aspect,
        a.rect.x.finite() && (a.rect.x == b.rect.x || at_zero(a.rect.x) && at_zero(b.rect.x)),
        a.rect.y.finite() && (a.rect.y == b.rect.y || at_zero(a.rect.y) && at_zero(b.rect.y)),
        a.rect.width.finite() && a.rect.width == b.rect.width,
        a.rect.height.finite() && a.rect.height == b.rect.height,
    ensures
        a.equals(b),
{
}

/// The whole picture goes from 0 to 1 on both axes, and nothing else is it.
pub proof fn the_whole_picture_goes_from_zero_to_one(rect: CropRect)
    ensures
        rect.equals(CropRect::full_spec()) <==> at_zero(rect.x) && at_zero(rect.y) && at_one(
            rect.width,
        ) && at_one(rect.height),
{
}

impl Crop {
    /// The crop that is applied to a video: none where it is the whole picture.
    pub open spec fn of_video(self) -> Option<Crop> {
        if self.rect.equals(CropRect::full_spec()) {
            None
        } else {
            Some(self)
        }
    }
}

/// A crop that keeps a part of the picture is applied as it is, and only the
/// whole picture is none.
pub proof fn a_crop_of_a_part_is_applied(crop: Crop)
    ensures
        at_zero(crop.rect.x) && at_zero(crop.rect.y) && at_one(crop.rect.width) && at_one(
            crop.rect.height,
        ) ==> crop.of_video() is None,
        !(at_zero(crop.rect.x) && at_zero(crop.rect.y) && at_one(crop.rect.width) && at_one(
            crop.rect.height,
        )) ==> crop.of_video() == Some(crop),
{
}

} // verus!
