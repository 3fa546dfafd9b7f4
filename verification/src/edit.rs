//! The edit parameters of one photo: the global adjustments and the masks
//! that adjust parts of the picture on top of them.

use crate::look::{diagonal, equal_looks, HslRange, Look, Wheels, HSL_RANGES};
use crate::mask::{a_copy_compares_as_the_mask, equal_masks, masks_copied, masks_equal, Mask};
use crate::num::{at_zero, Single, ZERO};
use vstd::prelude::*;

verus! {

/// Everything an edit adjusts. The global edit holds one and every mask holds
/// one of its own, which is why it is a type apart from [`PhotoEdit`].
///
/// Every scalar field is a slider. Zero is the neutral position for each of
/// them, so `Adjustments::default()` leaves the photo as it was shot.
/// Temperature and tint are offsets from the white balance read from the
/// file, exposure is in stops, and the rest run from -100 to 100.
#[derive(Debug)]
pub struct Adjustments {
    pub white_balance_temperature: Single,
    pub white_balance_tint: Single,
    pub exposure: Single,
    pub contrast: Single,
    pub highlights: Single,
    pub shadows: Single,
    pub whites: Single,
    pub blacks: Single,
    pub vibrance: Single,
    pub saturation: Single,
    pub texture: Single,
    pub clarity: Single,
    pub dehaze: Single,
    pub look: Look,
}

impl Adjustments {
    /// The same adjustments to the bit.
    pub open spec fn copy_of(self, other: Adjustments) -> bool {
        &&& self.white_balance_temperature == other.white_balance_temperature
        &&& self.white_balance_tint == other.white_balance_tint
        &&& self.exposure == other.exposure
        &&& self.contrast == other.contrast
        &&& self.highlights == other.highlights
        &&& self.shadows == other.shadows
        &&& self.whites == other.whites
        &&& self.blacks == other.blacks
        &&& self.vibrance == other.vibrance
        &&& self.saturation == other.saturation
        &&& self.texture == other.texture
        &&& self.clarity == other.clarity
        &&& self.dehaze == other.dehaze
        &&& self.look.copy_of(other.look)
    }

    pub open spec fn equals(self, other: Adjustments) -> bool {
        &&& self.white_balance_temperature.equals(other.white_balance_temperature)
        &&& self.white_balance_tint.equals(other.white_balance_tint)
        &&& self.exposure.equals(other.exposure)
        &&& self.contrast.equals(other.contrast)
        &&& self.highlights.equals(other.highlights)
        &&& self.shadows.equals(other.shadows)
        &&& self.whites.equals(other.whites)
        &&& self.blacks.equals(other.blacks)
        &&& self.vibrance.equals(other.vibrance)
        &&& self.saturation.equals(other.saturation)
        &&& self.texture.equals(other.texture)
        &&& self.clarity.equals(other.clarity)
        &&& self.dehaze.equals(other.dehaze)
        &&& self.look.equals(other.look)
    }

    /// Every slider at zero and a look that changes nothing.
    pub open spec fn neutral(self) -> bool {
        &&& self.white_balance_temperature.equals(Single { bits: ZERO })
        &&& self.white_balance_tint.equals(Single { bits: ZERO })
        &&& self.exposure.equals(Single { bits: ZERO })
        &&& self.contrast.equals(Single { bits: ZERO })
        &&& self.highlights.equals(Single { bits: ZERO })
        &&& self.shadows.equals(Single { bits: ZERO })
        &&& self.whites.equals(Single { bits: ZERO })
        &&& self.blacks.equals(Single { bits: ZERO })
        &&& self.vibrance.equals(Single { bits: ZERO })
        &&& self.saturation.equals(Single { bits: ZERO })
        &&& self.texture.equals(Single { bits: ZERO })
        &&& self.clarity.equals(Single { bits: ZERO })
        &&& self.dehaze.equals(Single { bits: ZERO })
        &&& self.look.identity()
    }

    /// Every slider at 0 to the bit and the look of a photo nobody edited.
    pub open spec fn at_rest(self) -> bool {
        &&& self.neutral()
        &&& self.white_balance_temperature.bits == ZERO
        &&& self.white_balance_tint.bits == ZERO
        &&& self.exposure.bits == ZERO
        &&& self.contrast.bits == ZERO
        &&& self.highlights.bits == ZERO
        &&& self.shadows.bits == ZERO
        &&& self.whites.bits == ZERO
        &&& self.blacks.bits == ZERO
        &&& self.vibrance.bits == ZERO
        &&& self.saturation.bits == ZERO
        &&& self.texture.bits == ZERO
        &&& self.clarity.bits == ZERO
        &&& self.dehaze.bits == ZERO
        &&& self.look.wheels == Wheels::neutral()
        &&& forall|i: int|
            0 <= i < HSL_RANGES ==> #[trigger] self.look.hsl@[i] == HslRange::neutral()
        &&& self.look.curves.master.points@ == diagonal()
        &&& self.look.curves.red.points@ == diagonal()
        &&& self.look.curves.green.points@ == diagonal()
        &&& self.look.curves.blue.points@ == diagonal()
    }

    /// Whether the adjustments leave the picture as it was.
    pub fn is_neutral(&self) -> (r: bool)
        ensures
            r == self.neutral(),
    {
        let rest: Single = Single { bits: ZERO };
        self.white_balance_temperature == rest && self.white_balance_tint == rest && self.exposure == rest && self.contrast == rest && self.highlights == rest && self.shadows == rest && self.whites == rest && self.blacks == rest && self.vibrance == rest && self.saturation == rest && self.texture == rest && self.clarity == rest && self.dehaze == rest && self.look.is_identity()
    }
}

impl Clone for Adjustments {
    fn clone(&self) -> (r: Self)
        ensures
            r.copy_of(*self),
    {
        Adjustments {
            white_balance_temperature: self.white_balance_temperature,
            white_balance_tint: self.white_balance_tint,
            exposure: self.exposure,
            contrast: self.contrast,
            highlights: self.highlights,
            shadows: self.shadows,
            whites: self.whites,
            blacks: self.blacks,
            vibrance: self.vibrance,
            saturation: self.saturation,
            texture: self.texture,
            clarity: self.clarity,
            dehaze: self.dehaze,
            look: self.look.clone(),
        }
    }
}

impl PartialEq for Adjustments {
    fn eq(&self, other: &Self) -> (r: bool) {
        self.white_balance_temperature == other.white_balance_temperature && self.white_balance_tint == other.white_balance_tint && self.exposure == other.exposure && self.contrast == other.contrast && self.highlights == other.highlights && self.shadows == other.shadows && self.whites == other.whites && self.blacks == other.blacks && self.vibrance == other.vibrance && self.saturation == other.saturation && self.texture == other.texture && self.clarity == other.clarity && self.dehaze == other.dehaze && self.look == other.look
    }
}

impl vstd::std_specs::cmp::PartialEqSpecImpl for Adjustments {
    open spec fn obeys_eq_spec() -> bool {
        true
    }

    open spec fn eq_spec(&self, other: &Self) -> bool {
        self.equals(*other)
    }
}

impl Default for Adjustments {
    fn default() -> (r: Self)
        ensures
            r.at_rest(),
    {
        let rest: Single = Single { bits: ZERO };
        Adjustments {
            white_balance_temperature: rest,
            white_balance_tint: rest,
            exposure: rest,
            contrast: rest,
            highlights: rest,
            shadows: rest,
            whites: rest,
            blacks: rest,
            vibrance: rest,
            saturation: rest,
            texture: rest,
            clarity: rest,
            dehaze: rest,
            look: Look::default(),
        }
    }
}

/// The edit parameters of one photo: the global [`Adjustments`] and the
/// masks that adjust parts of the picture on top of them, in list order.
#[derive(Debug)]
pub struct PhotoEdit {
    pub adjust: Adjustments,
    pub masks: Vec<Mask>,
}

impl PhotoEdit {
    /// The same edit to the bit.
    pub open spec fn copy_of(self, other: PhotoEdit) -> bool {
        self.adjust.copy_of(other.adjust) && masks_copied(self.masks@, other.masks@)
    }

    pub open spec fn equals(self, other: PhotoEdit) -> bool {
        self.adjust.equals(other.adjust) && masks_equal(self.masks@, other.masks@)
    }

    /// An edit of these adjustments and no masks.
    pub fn of(adjust: Adjustments) -> (r: PhotoEdit)
        ensures
            r.adjust == adjust,
            r.masks@.len() == 0,
    {
        PhotoEdit { adjust, masks: Vec::new() }
    }
}

impl Clone for PhotoEdit {
    fn clone(&self) -> (r: Self)
        ensures
            r.copy_of(*self),
    {
        let mut masks: Vec<Mask> = Vec::new();
        let mut i: usize = 0;
        while i < self.masks.len()
            invariant
                0 <= i <= self.masks@.len(),
                masks_copied(masks@, self.masks@.take(i as int)),
            decreases self.masks.len() - i,
        {
            let mask: Mask = self.masks[i].clone();
            masks.push(mask);
            i += 1;
        }
        assert(self.masks@.take(i as int) =~= self.masks@);
        PhotoEdit { adjust: self.adjust.clone(), masks }
    }
}

impl PartialEq for PhotoEdit {
    fn eq(&self, other: &Self) -> (r: bool) {
        if self.adjust != other.adjust || self.masks.len() != other.masks.len() {
            return false;
        }
        let mut i: usize = 0;
        while i < self.masks.len()
            invariant
                0 <= i <= self.masks@.len() == other.masks@.len(),
                forall|k: int|
                    0 <= k < i ==> (#[trigger] self.masks@[k]).equals(other.masks@[k]),
            decreases self.masks.len() - i,
        {
            if self.masks[i] != other.masks[i] {
                assert(!self.masks@[i as int].equals(other.masks@[i as int]));
                return false;
            }
            i += 1;
        }
        true
    }
}

impl vstd::std_specs::cmp::PartialEqSpecImpl for PhotoEdit {
    open spec fn obeys_eq_spec() -> bool {
        true
    }

    open spec fn eq_spec(&self, other: &Self) -> bool {
        self.equals(*other)
    }
}

impl Default for PhotoEdit {
    fn default() -> (r: Self)
        ensures
            r.adjust.at_rest(),
            r.masks@.len() == 0,
    {
        PhotoEdit::of(Adjustments::default())
    }
}

/// A copy of an edit compares as the edit does.
pub proof fn a_copy_compares_as_the_edit(copy: PhotoEdit, edit: PhotoEdit, other: PhotoEdit)
    requires
        copy.copy_of(edit),
    ensures
        copy.equals(other) == edit.equals(other),
        other.equals(copy) == other.equals(edit),
{
    if edit.masks@.len() == other.masks@.len() {
        assert forall|i: int| 0 <= i < edit.masks@.len() implies {
            &&& (#[trigger] copy.masks@[i]).equals(other.masks@[i]) == edit.masks@[i].equals(
                other.masks@[i],
            )
            &&& other.masks@[i].equals(copy.masks@[i]) == other.masks@[i].equals(edit.masks@[i])
        } by {
            a_copy_compares_as_the_mask(copy.masks@[i], edit.masks@[i], other.masks@[i]);
        }
        if masks_equal(copy.masks@, other.masks@) {
            assert forall|i: int| 0 <= i < edit.masks@.len() implies (
            #[trigger] edit.masks@[i]).equals(other.masks@[i]) by {
                assert(copy.masks@[i].equals(other.masks@[i]));
            }
        }
        if masks_equal(other.masks@, copy.masks@) {
            assert forall|i: int| 0 <= i < edit.masks@.len() implies (
            #[trigger] other.masks@[i]).equals(edit.masks@[i]) by {
                assert(other.masks@[i].equals(copy.masks@[i]));
            }
        }
        if masks_equal(other.masks@, edit.masks@) {
            assert forall|i: int| 0 <= i < edit.masks@.len() implies (
            #[trigger] other.masks@[i]).equals(copy.masks@[i]) by {
                assert(copy.masks@[i].equals(other.masks@[i]) == edit.masks@[i].equals(
                    other.masks@[i],
                ));
            }
        }
    }
}

/// Equality of adjustments is symmetric and transitive.
pub proof fn equal_adjustments(a: Adjustments, b: Adjustments, c: Adjustments)
    ensures
        a.equals(b) ==> b.equals(a),
        a.equals(b) && b.equals(c) ==> a.equals(c),
{
    equal_looks(a.look, b.look, c.look);
}

/// Equality of edits is symmetric and transitive.
pub proof fn equal_edits(a: PhotoEdit, b: PhotoEdit, c: PhotoEdit)
    ensures
        a.equals(b) ==> b.equals(a),
        a.equals(b) && b.equals(c) ==> a.equals(c),
{
    equal_adjustments(a.adjust, b.adjust, c.adjust);
    if a.equals(b) {
        assert forall|i: int| 0 <= i < b.masks@.len() implies (#[trigger] b.masks@[i]).equals(
            a.masks@[i],
        ) by {
            equal_masks(a.masks@[i], b.masks@[i], b.masks@[i]);
        }
        if b.equals(c) {
            assert forall|i: int| 0 <= i < a.masks@.len() implies (#[trigger] a.masks@[i]).equals(
                c.masks@[i],
            ) by {
                assert(b.masks@[i].equals(c.masks@[i]));
                equal_masks(a.masks@[i], b.masks@[i], c.masks@[i]);
            }
        }
    }
}

impl Adjustments {
    /// The sliders, in the order of the panel.
    pub open spec fn sliders(self) -> Seq<Single> {
        seq![
            self.white_balance_temperature,
            self.white_balance_tint,
            self.exposure,
            self.contrast,
            self.highlights,
            self.shadows,
            self.whites,
            self.blacks,
            self.vibrance,
            self.saturation,
            self.texture,
            self.clarity,
            self.dehaze,
        ]
    }
}

/// A slider that was moved shows, whichever it is and whichever way it went.
pub proof fn a_moved_slider_is_not_neutral(adjust: Adjustments, i: int)
    requires
        0 <= i < 13,
        !at_zero(adjust.sliders()[i]),
    ensures
        !adjust.neutral(),
{
}

/// Adjustments leave the picture as it was when every slider is at 0 and the
/// look changes nothing, and a look that changes something shows.
pub proof fn sliders_at_zero_leave_the_look(adjust: Adjustments)
    requires
        forall|i: int| 0 <= i < 13 ==> at_zero(#[trigger] adjust.sliders()[i]),
    ensures
        adjust.neutral() == adjust.look.identity(),
{
    let s = adjust.sliders();
    assert(at_zero(s[0]) && at_zero(s[1]) && at_zero(s[2]) && at_zero(s[3]) && at_zero(s[4]));
    assert(at_zero(s[5]) && at_zero(s[6]) && at_zero(s[7]) && at_zero(s[8]) && at_zero(s[9]));
    assert(at_zero(s[10]) && at_zero(s[11]) && at_zero(s[12]));
}

/// A look that changes something shows whatever the sliders are.
pub proof fn a_look_that_changes_something_is_not_neutral(adjust: Adjustments)
    requires
        !adjust.look.identity(),
    ensures
        !adjust.neutral(),
{
}

/// Equal adjustments agree in every slider and in the look.
pub proof fn equal_adjustments_agree(a: Adjustments, b: Adjustments, i: int)
    requires
        a.equals(b),
        0 <= i < 13,
    ensures
        a.sliders()[i].equals(b.sliders()[i]),
        a.look.equals(b.look),
{
}

/// Adjustments that agree in every slider and in the look are equal.
pub proof fn adjustments_that_agree_are_equal(a: Adjustments, b: Adjustments)
    requires
        forall|i: int| 0 <= i < 13 ==> (#[trigger] a.sliders()[i]).equals(b.sliders()[i]),
        a.look.equals(b.look),
    ensures
        a.equals(b),
{
    let (s, t) = (a.sliders(), b.sliders());
    assert(s[0].equals(t[0]) && s[1].equals(t[1]) && s[2].equals(t[2]) && s[3].equals(t[3]));
    assert(s[4].equals(t[4]) && s[5].equals(t[5]) && s[6].equals(t[6]) && s[7].equals(t[7]));
    assert(s[8].equals(t[8]) && s[9].equals(t[9]) && s[10].equals(t[10]) && s[11].equals(t[11]));
    assert(s[12].equals(t[12]));
}

/// A copy of an edit has its sliders and its look to the bit, and as many
/// masks, each a copy of the mask in its place.
pub proof fn a_copied_edit_is_the_edit(a: PhotoEdit, b: PhotoEdit, i: int, mask: int)
    requires
        a.copy_of(b),
        0 <= i < 13,
        0 <= mask < b.masks@.len(),
    ensures
        a.adjust.sliders()[i] == b.adjust.sliders()[i],
        a.adjust.look.copy_of(b.adjust.look),
        a.masks@.len() == b.masks@.len(),
        a.masks@[mask].copy_of(b.masks@[mask]),
{
}

/// Equal edits agree in the adjustments and in each mask.
pub proof fn equal_edits_agree(a: PhotoEdit, b: PhotoEdit, mask: int)
    requires
        a.equals(b),
        0 <= mask < a.masks@.len(),
    ensures
        a.adjust.equals(b.adjust),
        a.masks@.len() == b.masks@.len(),
        a.masks@[mask].equals(b.masks@[mask]),
{
}

/// Edits that agree in their adjustments and in each mask are equal.
pub proof fn edits_that_agree_are_equal(a: PhotoEdit, b: PhotoEdit)
    requires
        a.adjust.equals(b.adjust),
        a.masks@.len() == b.masks@.len(),
        forall|i: int| 0 <= i < a.masks@.len() ==> (#[trigger] a.masks@[i]).equals(b.masks@[i]),
    ensures
        a.equals(b),
{
}

} // verus!
