//! The open file as the window works on it, and the brush on it: the Paint
//! button arms a component, a press starts a stroke, the pointer grows it, and
//! the release ends it.

use crate::adjust::AdjustState;
use crate::brush::{
    a_pressure, a_sane_setting_is_kept, a_stroke_keeps_its_points, last_place, on_photo, sanitising_keeps_a_sane_stroke, storable,
    stored_place, stored_pressure_spec, Place, SharedStroke, Steps, Stroke, StrokeView,
    MAX_BRUSH_SIZE, MAX_STROKES, MAX_STROKE_POINTS, MIN_BRUSH_SIZE, PRESSURE_STEPS,
};
use crate::brush_tool::{
    brush_key, pressed_places, pressed_points, BrushKey, BrushKeys, BrushTool, Spot,
};
use crate::edit::PhotoEdit;
use crate::mask::{Mask, MaskSource};
use crate::num::{single, Single, HUNDRED, ZERO};
use crate::text::{decimal, write_decimal};
use vstd::prelude::*;
use vstd::string::*;

verus! {

/// The open file as the window works on it.
#[derive(Debug)]
pub struct Session {
    pub edit: PhotoEdit,
    pub adjust: AdjustState,
    /// The picture is stale.
    pub develop_dirty: bool,
    /// The file is stale.
    pub changed: bool,
    /// What the window says at its foot.
    pub status: Option<String>,
}

impl Default for Session {
    fn default() -> (r: Self)
        ensures
            r.edit.adjust.at_rest(),
            r.edit.masks@.len() == 0,
            r.adjust == AdjustState::default_spec(),
            !r.develop_dirty && !r.changed,
            r.status is None,
    {
        Session {
            edit: PhotoEdit::default(),
            adjust: AdjustState::default(),
            develop_dirty: false,
            changed: false,
            status: None,
        }
    }
}

/// `after` is `before` with other strokes in one of its brush components.
pub open spec fn mask_painted(
    after: Mask,
    before: Mask,
    component: int,
    strokes: Seq<StrokeView>,
) -> bool {
    &&& after.name == before.name
    &&& after.enabled == before.enabled
    &&& after.opacity == before.opacity
    &&& after.invert == before.invert
    &&& after.adjust == before.adjust
    &&& after.refine == before.refine
    &&& after.edge == before.edge
    &&& after.components@.len() == before.components@.len()
    &&& forall|i: int|
        0 <= i < before.components@.len() && i != component ==> #[trigger] after.components@[i]
            == before.components@[i]
    &&& after.components@[component].op == before.components@[component].op
    &&& after.components@[component].invert == before.components@[component].invert
    &&& after.components@[component].source matches MaskSource::Brush(brush) && brush@ == strokes
}

/// `after` is `before` with other strokes in a brush component of a mask.
pub open spec fn painted(
    after: PhotoEdit,
    before: PhotoEdit,
    place: (int, int),
    strokes: Seq<StrokeView>,
) -> bool {
    &&& after.adjust == before.adjust
    &&& after.masks@.len() == before.masks@.len()
    &&& forall|i: int|
        0 <= i < before.masks@.len() && i != place.0 ==> #[trigger] after.masks@[i]
            == before.masks@[i]
    &&& mask_painted(after.masks@[place.0], before.masks@[place.0], place.1, strokes)
}

/// The strokes of a brush component, where there is one.
pub open spec fn strokes_at(edit: PhotoEdit, mask: int, component: int) -> Option<Seq<StrokeView>> {
    if 0 <= mask < edit.masks@.len() && 0 <= component < edit.masks@[mask].components@.len() {
        match edit.masks@[mask].components@[component].source {
            MaskSource::Brush(brush) => Some(brush@),
            _ => None,
        }
    } else {
        None
    }
}

/// What a stroke that is full goes on as: the same brush from its last point
/// and that point's pressure.
pub open spec fn continued(last: StrokeView, at: Place, pressure: Option<Steps>) -> StrokeView {
    let points = if last.points.len() > 0 {
        seq![last.points.last(), at]
    } else {
        seq![at]
    };
    let before = if last.pressure.len() > 0 {
        last.pressure.last()
    } else {
        Steps { count: Some(PRESSURE_STEPS), minus_zero: false }
    };
    let now = match pressure {
        Some(p) => p,
        None => before,
    };
    let pressures = if last.pressure.len() == 0 && pressure is None {
        Seq::empty()
    } else if last.points.len() > 0 {
        seq![before, now]
    } else {
        seq![now]
    };
    StrokeView { points, pressure: pressures, ..last }
}

/// The strokes after the stroke in hand took a point.
pub open spec fn extended(
    strokes: Seq<StrokeView>,
    at: Place,
    pressure: Option<Steps>,
) -> Seq<StrokeView> {
    let last = strokes.last();
    if storable(at) && last.points.len() < MAX_STROKE_POINTS {
        strokes.update(strokes.len() - 1, last.pushed(at, pressure))
    } else {
        strokes.push(continued(last, at, pressure).sanitised())
    }
}

/// What the window says of a full brush.
pub open spec fn full_brush_text() -> Seq<char> {
    "This brush holds "@ + decimal(MAX_STROKES as nat)
        + " strokes. Add another brush component to go on."@
}

impl Session {
    /// Where the armed brush is: the selected mask and the armed component,
    /// when there is a brush there.
    pub open spec fn armed_at(self) -> Option<(int, int)> {
        match (self.adjust.selected_mask, self.adjust.brush.armed) {
            (Some(mask), Some(component)) => if strokes_at(
                self.edit,
                mask as int,
                component as int,
            ) is Some {
                Some((mask as int, component as int))
            } else {
                None
            },
            _ => None,
        }
    }

    /// The strokes of the armed brush.
    pub open spec fn armed_strokes(self) -> Seq<StrokeView> {
        match self.armed_at() {
            Some((mask, component)) => strokes_at(self.edit, mask, component)->0,
            None => Seq::empty(),
        }
    }

    /// The session with the brush down.
    pub open spec fn brush_down(self) -> Session {
        Session {
            adjust: self.adjust.brush_down(),
            develop_dirty: self.develop_dirty || self.adjust.brush.gives_back(
                self.adjust.mask_overlay,
            ),
            ..self
        }
    }

    /// The session with a component armed, which holds a brush.
    pub open spec fn arming(self, component: usize) -> Session {
        let down = self.brush_down();
        Session {
            adjust: AdjustState {
                mask_overlay: true,
                picking: None,
                brush: BrushTool {
                    armed: Some(component),
                    overlay_before: Some(down.adjust.mask_overlay),
                    ..down.adjust.brush
                },
                ..down.adjust
            },
            develop_dirty: down.develop_dirty || !down.adjust.mask_overlay,
            ..down
        }
    }

    /// The session after the Paint button of a component.
    pub open spec fn toggled(self, component: usize) -> Session {
        let holds = self.adjust.selected_mask matches Some(mask) && strokes_at(
            self.edit,
            mask as int,
            component as int,
        ) is Some;
        if self.adjust.brush.armed == Some(component) || !holds {
            self.brush_down()
        } else {
            self.arming(component)
        }
    }

    /// The session with a brush that has nothing to paint into put down.
    pub open spec fn checked(self) -> Session {
        if self.adjust.brush.armed is Some && (self.adjust.pending_switch is Some || self.armed_at()
            is None) {
            self.brush_down()
        } else {
            self
        }
    }

    /// The strokes of the armed brush after a press.
    pub open spec fn pressed(
        self,
        at: Place,
        erase: bool,
        shift: bool,
        pressure: Option<Steps>,
    ) -> Seq<StrokeView> {
        self.armed_strokes().push(
            self.adjust.brush.stroke_spec(
                pressed_places(self.armed_strokes(), at, shift),
                erase,
                pressure,
            ).sanitised(),
        )
    }

    /// Whether a drag gives the stroke in hand a point.
    pub open spec fn takes_point(self, at: Place, due: bool) -> bool {
        let strokes = self.armed_strokes();
        &&& self.adjust.brush.growing is Some && due
        &&& self.armed_at() is Some && strokes.len() > 0
        &&& storable(at) && strokes.last().points.len() < MAX_STROKE_POINTS || strokes.len()
            < MAX_STROKES
    }

    /// The session after the keys of a frame, and whether the brush is still in
    /// the hand.
    pub open spec fn framed(self, keys: BrushKeys, wanted: Single) -> (Session, bool) {
        let checked = self.checked();
        if checked.adjust.brush.armed is None {
            (checked, false)
        } else {
            match (BrushKeys { armed: true, ..keys }).acted() {
                Some(key) => (checked.keyed(key, wanted), key != BrushKey::PutDown),
                None => (checked, true),
            }
        }
    }

    /// The edit changed: the picture and the file are stale.
    pub fn mark_edited(&mut self)
        ensures
            *final(self) == (Session { develop_dirty: true, changed: true, ..*old(self) }),
    {
        self.develop_dirty = true;
        self.changed = true;
    }

    /// Where the armed brush is, when the selection still has one there.
    fn armed_place(&self) -> (r: Option<(usize, usize)>)
        ensures
            match r {
                Some((mask, component)) => self.armed_at() == Some((mask as int, component as int)),
                None => self.armed_at() is None,
            },
    {
        match (self.adjust.selected_mask, self.adjust.brush.armed) {
            (Some(mask), Some(component)) => {
                if mask < self.edit.masks.len() && component < self.edit.masks[mask].components.len() {
                    match &self.edit.masks[mask].components[component].source {
                        MaskSource::Brush(_) => Some((mask, component)),
                        _ => None,
                    }
                } else {
                    None
                }
            },
            _ => None,
        }
    }

    /// The Paint button: arms a brush component of the selected mask, or
    /// puts the brush down when that component is the armed one. Arming
    /// turns the overlay of the mask on.
    pub fn toggle_brush(&mut self, component: usize)
        ensures
            *final(self) == old(self).toggled(component),
            ({
                let holds = old(self).adjust.selected_mask matches Some(mask) && strokes_at(
                    old(self).edit,
                    mask as int,
                    component as int,
                ) is Some;
                *final(self) == if old(self).adjust.brush.armed == Some(component) || !holds {
                    old(self).brush_down()
                } else {
                    old(self).arming(component)
                }
            }),
    {
        let same: bool = match self.adjust.brush.armed {
            Some(armed) => armed == component,
            None => false,
        };
        self.put_brush_down();
        if same {
            return;
        }
        self.adjust.brush.armed = Some(component);
        if self.armed_place().is_none() {
            self.adjust.brush.armed = None;
            return;
        }
        self.adjust.picking = None;
        self.adjust.brush.overlay_before = Some(self.adjust.mask_overlay);
        if !self.adjust.mask_overlay {
            self.adjust.mask_overlay = true;
            self.develop_dirty = true;
        }
    }

    /// Puts the brush down: the stroke in hand ends and the overlay goes
    /// back to what it was before the brush was armed.
    pub fn put_brush_down(&mut self)
        ensures
            *final(self) == old(self).brush_down(),
    {
        if self.adjust.put_brush_down() {
            self.develop_dirty = true;
        }
    }

    /// Once a frame, and after anything that may have taken the armed
    /// component away (an undo, a deleted component, another mask selected,
    /// the Save, Discard, Cancel prompt): a brush with nothing to paint into
    /// is put down.
    pub fn check_brush(&mut self)
        ensures
            *final(self) == old(self).checked(),
            *final(self) == if old(self).adjust.brush.armed is Some && (
            old(self).adjust.pending_switch is Some || old(self).armed_at() is None) {
                old(self).brush_down()
            } else {
                *old(self)
            },
    {
        if self.adjust.brush.armed.is_none() {
            return;
        }
        if self.adjust.pending_switch.is_some() || self.armed_place().is_none() {
            self.put_brush_down();
        }
    }

    /// The press: a new stroke with the settings of this moment. `erase` is
    /// the toggle or Alt; `shift` draws a line from the end of the last
    /// stroke. `false` when no brush is armed or the brush is full.
    pub fn begin_stroke(
        &mut self,
        at: Place,
        screen: Spot,
        erase: bool,
        shift: bool,
        pressure: Option<Steps>,
    ) -> (r: bool)
        ensures
            r == (old(self).armed_at() is Some && old(self).armed_strokes().len() < MAX_STROKES),
            old(self).armed_at() is None ==> *final(self) == *old(self),
            old(self).armed_at() is Some && !r ==> {
                &&& final(self).edit == old(self).edit
                &&& final(self).adjust == old(self).adjust
                &&& final(self).develop_dirty == old(self).develop_dirty
                &&& final(self).changed == old(self).changed
                &&& final(self).status matches Some(text) && text@ == full_brush_text()
            },
            r ==> painted(
                final(self).edit,
                old(self).edit,
                old(self).armed_at()->0,
                old(self).pressed(at, erase, shift, pressure),
            ),
            r ==> {
                &&& painted(
                    final(self).edit,
                    old(self).edit,
                    old(self).armed_at()->0,
                    old(self).armed_strokes().push(
                        old(self).adjust.brush.stroke_spec(
                            pressed_places(old(self).armed_strokes(), at, shift),
                            erase,
                            pressure,
                        ).sanitised(),
                    ),
                )
                &&& final(self).adjust == (AdjustState {
                    brush: (BrushTool { growing: Some(screen), ..old(self).adjust.brush }),
                    ..old(self).adjust
                })
                &&& final(self).develop_dirty && final(self).changed
                &&& final(self).status == old(self).status
            },
    {
        let (mask, component): (usize, usize) = match self.armed_place() {
            Some(place) => place,
            None => {
                return false;
            },
        };
        let tool: BrushTool = self.adjust.brush;
        let ghost strokes = self.armed_strokes();
        let (room, points): (bool, Vec<Place>) = match &self.edit.masks[mask].components[component].source {
            MaskSource::Brush(brush) => (brush.has_room(), pressed_points(brush, at, shift)),
            _ => (false, Vec::new()),
        };
        if !room {
            let mut text: String = "This brush holds ".to_owned();
            let count: String = write_decimal(MAX_STROKES as u64);
            text.append(count.as_str());
            text.append(" strokes. Add another brush component to go on.");
            self.status = Some(text);
            return false;
        }
        let stroke: SharedStroke = SharedStroke::new(&tool.stroke(points, erase, pressure));
        if let MaskSource::Brush(brush) = &mut self.edit.masks[mask].components[component].source {
            brush.strokes.push(stroke);
            assert(brush@ =~= strokes.push(stroke@));
        }
        self.adjust.brush.growing = Some(screen);
        self.mark_edited();
        true
    }

    /// The drag: the stroke in hand takes the pointer's place once it is
    /// due: `due` says whether the pointer moved far enough from where the
    /// stroke took its last point. A stroke that is full goes on in a new one
    /// of the same brush, which the history still sees as the one change it
    /// is.
    pub fn extend_stroke(&mut self, at: Place, screen: Spot, due: bool, pressure: Option<Steps>)
        ensures
            old(self).takes_point(at, due) ==> painted(
                final(self).edit,
                old(self).edit,
                old(self).armed_at()->0,
                extended(old(self).armed_strokes(), at, pressure),
            ) && final(self).develop_dirty && final(self).changed
                && final(self).adjust.brush.growing == Some(screen),
            !old(self).takes_point(at, due) ==> *final(self) == *old(self),
            ({
                let strokes = old(self).armed_strokes();
                let takes = old(self).adjust.brush.growing is Some && due && old(self).armed_at()
                    is Some && strokes.len() > 0 && (storable(at) && strokes.last().points.len()
                    < MAX_STROKE_POINTS || strokes.len() < MAX_STROKES);
                if takes {
                    &&& painted(
                        final(self).edit,
                        old(self).edit,
                        old(self).armed_at()->0,
                        extended(strokes, at, pressure),
                    )
                    &&& final(self).adjust == (AdjustState {
                        brush: (BrushTool { growing: Some(screen), ..old(self).adjust.brush }),
                        ..old(self).adjust
                    })
                    &&& final(self).develop_dirty && final(self).changed
                    &&& final(self).status == old(self).status
                } else {
                    *final(self) == *old(self)
                }
            }),
    {
        if self.adjust.brush.growing.is_none() || !due {
            return;
        }
        let (mask, component): (usize, usize) = match self.armed_place() {
            Some(place) => place,
            None => {
                return;
            },
        };
        let ghost strokes = self.armed_strokes();
        let next: Option<SharedStroke> = match &self.edit.masks[mask].components[component].source {
            MaskSource::Brush(brush) => {
                let count: usize = brush.strokes.len();
                if count == 0 {
                    return;
                }
                let last: &Stroke = brush.strokes[count - 1].get();
                assert(last@ == strokes.last());
                if at.x.count.is_some() && at.y.count.is_some() && last.points.len()
                    < MAX_STROKE_POINTS {
                    None
                } else if !brush.has_room() {
                    return;
                } else {
                    Some(SharedStroke::new(&goes_on(last, at, pressure)))
                }
            },
            _ => {
                return;
            },
        };
        if let MaskSource::Brush(brush) = &mut self.edit.masks[mask].components[component].source {
            match next {
                None => {
                    let last: usize = brush.strokes.len() - 1;
                    let mut stroke: SharedStroke = brush.strokes.remove(last);
                    stroke.push(at, pressure);
                    brush.strokes.push(stroke);
                },
                Some(stroke) => {
                    brush.strokes.push(stroke);
                },
            }
            assert(brush@ =~= extended(strokes, at, pressure));
        }
        self.adjust.brush.growing = Some(screen);
        self.mark_edited();
    }

    /// The release.
    pub fn end_stroke(&mut self)
        ensures
            *final(self) == (Session {
                adjust: (AdjustState {
                    brush: (BrushTool { growing: None, ..old(self).adjust.brush }),
                    ..old(self).adjust
                }),
                ..*old(self)
            }),
    {
        self.adjust.brush.growing = None;
    }

    /// The Clear strokes button of a brush component of the selected mask.
    pub fn clear_strokes(&mut self, component: usize)
        ensures
            ({
                let strokes = match old(self).adjust.selected_mask {
                    Some(mask) => strokes_at(old(self).edit, mask as int, component as int),
                    None => None,
                };
                if strokes is Some && strokes->0.len() > 0 {
                    &&& painted(
                        final(self).edit,
                        old(self).edit,
                        (old(self).adjust.selected_mask->0 as int, component as int),
                        Seq::empty(),
                    )
                    &&& final(self).adjust == (AdjustState {
                        brush: (BrushTool { growing: None, ..old(self).adjust.brush }),
                        ..old(self).adjust
                    })
                    &&& final(self).develop_dirty && final(self).changed
                    &&& final(self).status == old(self).status
                } else {
                    *final(self) == *old(self)
                }
            }),
    {
        let mask: usize = match self.adjust.selected_mask {
            Some(mask) => mask,
            None => {
                return;
            },
        };
        if mask >= self.edit.masks.len() || component >= self.edit.masks[mask].components.len() {
            return;
        }
        let painted_on: bool = match &self.edit.masks[mask].components[component].source {
            MaskSource::Brush(brush) => brush.strokes.len() > 0,
            _ => false,
        };
        if !painted_on {
            return;
        }
        if let MaskSource::Brush(brush) = &mut self.edit.masks[mask].components[component].source {
            brush.strokes.clear();
            assert(brush@ =~= Seq::empty());
        }
        self.adjust.brush.growing = None;
        self.mark_edited();
    }

    /// Carries out a brush key. `wanted` is the size times the step of a key
    /// for Smaller and Larger, and the feather with the step added or taken
    /// for the two feather keys; the other keys do not read it.
    pub fn brush_key(&mut self, key: BrushKey, wanted: Single)
        ensures
            *final(self) == old(self).keyed(key, wanted),
    {
        match key {
            BrushKey::Smaller => self.adjust.brush.resize(wanted),
            BrushKey::Larger => self.adjust.brush.resize(wanted),
            BrushKey::LessFeather => self.adjust.brush.soften(wanted),
            BrushKey::MoreFeather => self.adjust.brush.soften(wanted),
            BrushKey::ToggleOverlay => {
                self.adjust.mask_overlay = !self.adjust.mask_overlay;
                self.develop_dirty = true;
            },
            BrushKey::ToggleAuto => {
                self.adjust.brush.auto = !self.adjust.brush.auto;
            },
            BrushKey::PutDown => self.put_brush_down(),
        }
    }

    /// The session after a brush key.
    pub open spec fn keyed(self, key: BrushKey, wanted: Single) -> Session {
        let tool = self.adjust.brush;
        match key {
            BrushKey::Smaller | BrushKey::Larger => Session {
                adjust: AdjustState {
                    brush: BrushTool {
                        size: wanted.held(single(MIN_BRUSH_SIZE), single(MAX_BRUSH_SIZE)),
                        ..tool
                    },
                    ..self.adjust
                },
                ..self
            },
            BrushKey::LessFeather | BrushKey::MoreFeather => Session {
                adjust: AdjustState {
                    brush: BrushTool {
                        feather: wanted.held(single(ZERO), single(HUNDRED)),
                        ..tool
                    },
                    ..self.adjust
                },
                ..self
            },
            BrushKey::ToggleOverlay => Session {
                adjust: AdjustState { mask_overlay: !self.adjust.mask_overlay, ..self.adjust },
                develop_dirty: true,
                ..self
            },
            BrushKey::ToggleAuto => Session {
                adjust: AdjustState { brush: BrushTool { auto: !tool.auto, ..tool }, ..self.adjust },
                ..self
            },
            BrushKey::PutDown => self.brush_down(),
        }
    }

    /// The start of a frame with a brush armed: a brush with nothing to paint
    /// into is put down, then a key is carried out. Whether the brush is still
    /// in the hand and the frame goes on to the pointer.
    pub fn brush_frame(&mut self, keys: BrushKeys, wanted: Single) -> (r: bool)
        ensures
            (*final(self), r) == old(self).framed(keys, wanted),
            ({
                let held = old(self).adjust.brush.armed is Some
                    && old(self).adjust.pending_switch is None && old(self).armed_at() is Some;
                let checked = if old(self).adjust.brush.armed is Some && !held {
                    old(self).brush_down()
                } else {
                    *old(self)
                };
                let key = if keys.typing {
                    None
                } else if keys.escape {
                    Some(BrushKey::PutDown)
                } else if keys.other_modifier {
                    None
                } else {
                    keys.asked()
                };
                &&& *final(self) == if held && key is Some {
                    checked.keyed(key->0, wanted)
                } else {
                    checked
                }
                &&& r == (held && key != Some(BrushKey::PutDown))
            }),
    {
        self.check_brush();
        if self.adjust.brush.armed.is_none() {
            return false;
        }
        if let Some(key) = brush_key(BrushKeys { armed: true, ..keys }) {
            self.brush_key(key, wanted);
            if self.adjust.brush.armed.is_none() {
                return false;
            }
        }
        true
    }
}

/// What a stroke that is full goes on as.
fn goes_on(last: &Stroke, at: Place, pressure: Option<Steps>) -> (r: Stroke)
    ensures
        r@ == continued(last@, at, pressure),
{
    let mut points: Vec<Place> = Vec::new();
    if last.points.len() > 0 {
        points.push(last.points[last.points.len() - 1]);
    }
    points.push(at);
    let mut pressures: Vec<Steps> = Vec::new();
    if last.pressure.len() > 0 || pressure.is_some() {
        let before: Steps = if last.pressure.len() > 0 {
            last.pressure[last.pressure.len() - 1]
        } else {
            Steps { count: Some(PRESSURE_STEPS), minus_zero: false }
        };
        if last.points.len() > 0 {
            pressures.push(before);
        }
        pressures.push(
            match pressure {
                Some(now) => now,
                None => before,
            },
        );
    }
    let again: Stroke = last.clone();
    let r: Stroke = Stroke {
        points,
        pressure: pressures,
        size: again.size,
        feather: again.feather,
        flow: again.flow,
        erase: again.erase,
        auto: again.auto,
        sensitivity: again.sensitivity,
        pressure_size: again.pressure_size,
        pressure_flow: again.pressure_flow,
    };
    assert(r@ =~= continued(last@, at, pressure));
    r
}

/// A place on the photo and on the screen, with the pressure there.
#[derive(Clone, Copy, Debug)]
pub struct Touchdown {
    pub at: Place,
    pub screen: Spot,
    pub pressure: Option<Steps>,
}

/// The places a frame offers to the stroke: every place the pointer was and
/// the one where it is now. On the frame of the press the moves before it are
/// not the stroke's; where the pointer is now is.
pub open spec fn offered_spec(
    started: bool,
    moves: Seq<Touchdown>,
    now: Option<Touchdown>,
) -> Seq<Touchdown> {
    let before = if started {
        Seq::empty()
    } else {
        moves
    };
    match now {
        Some(now) => before.push(now),
        None => before,
    }
}

/// The places a frame offers to the stroke.
pub fn offered(started: bool, moves: Vec<Touchdown>, now: Option<Touchdown>) -> (r: Vec<Touchdown>)
    ensures
        r@ == offered_spec(started, moves@, now),
{
    let mut out: Vec<Touchdown> = if started {
        Vec::new()
    } else {
        moves
    };
    if let Some(now) = now {
        out.push(now);
    }
    out
}

/// Arming a brush and putting it down leaves the overlay as it was.
pub proof fn a_put_down_brush_gives_the_overlay_back(session: Session, component: usize)
    requires
        session.adjust.brush.armed is None,
    ensures
        session.arming(component).brush_down().adjust.mask_overlay == session.adjust.mask_overlay,
        session.arming(component).brush_down().adjust.brush.armed is None,
{
}

/// The overlay keys pressed while painting are forgotten when the brush is
/// put down.
pub proof fn a_put_down_brush_forgets_the_overlay_keys(
    session: Session,
    component: usize,
    wanted: Single,
)
    requires
        session.adjust.brush.armed is None,
    ensures
        session.arming(component).keyed(
            BrushKey::ToggleOverlay,
            wanted,
        ).brush_down().adjust.mask_overlay == session.adjust.mask_overlay,
{
}

/// Painting changes the strokes of one brush and nothing else of the edit:
/// the other masks, the other components and every setting stay.
pub proof fn painting_changes_one_brush(
    after: PhotoEdit,
    before: PhotoEdit,
    mask: int,
    component: int,
    strokes: Seq<StrokeView>,
    other: int,
)
    requires
        0 <= mask < before.masks@.len(),
        0 <= component < before.masks@[mask].components@.len(),
        0 <= other < before.masks@.len(),
        other != mask,
        painted(after, before, (mask, component), strokes),
    ensures
        strokes_at(after, mask, component) == Some(strokes),
        after.adjust == before.adjust,
        after.masks@.len() == before.masks@.len(),
        after.masks@[other] == before.masks@[other],
        after.masks@[mask].name == before.masks@[mask].name,
        after.masks@[mask].enabled == before.masks@[mask].enabled,
        after.masks@[mask].opacity == before.masks@[mask].opacity,
        after.masks@[mask].invert == before.masks@[mask].invert,
        after.masks@[mask].adjust == before.masks@[mask].adjust,
        after.masks@[mask].refine == before.masks@[mask].refine,
        after.masks@[mask].edge == before.masks@[mask].edge,
        after.masks@[mask].components@.len() == before.masks@[mask].components@.len(),
        forall|i: int|
            0 <= i < before.masks@[mask].components@.len() && i != component
                ==> #[trigger] after.masks@[mask].components@[i]
                == before.masks@[mask].components@[i],
        after.masks@[mask].components@[component].op == before.masks@[mask].components@[component].op,
        after.masks@[mask].components@[component].invert
            == before.masks@[mask].components@[component].invert,
{
}

/// A stroke with room takes the point at its end; every stroke before it and
/// what it held stay.
pub proof fn a_stroke_with_room_takes_the_point(
    strokes: Seq<StrokeView>,
    at: Place,
    pressure: Option<Steps>,
    other: int,
)
    requires
        strokes.len() > 0,
        at.x.count is Some && at.y.count is Some,
        strokes.last().points.len() < 4096,
        0 <= other < strokes.len() - 1,
    ensures
        ({
            let now = extended(strokes, at, pressure);
            let (then, last) = (strokes.last(), now.last());
            &&& now.len() == strokes.len()
            &&& now[other] == strokes[other]
            &&& last.points == then.points.push(stored_place(at))
            &&& last.size == then.size && last.feather == then.feather && last.flow == then.flow
            &&& last.erase == then.erase && last.auto == then.auto
            &&& last.sensitivity == then.sensitivity
            &&& last.pressure_size == then.pressure_size
            &&& last.pressure_flow == then.pressure_flow
        }),
{
}

/// A stroke that is full goes on in a new one: from its last point to the new
/// one, with the same brush, and every stroke painted so far stays.
pub proof fn a_full_stroke_goes_on_in_a_new_one(
    strokes: Seq<StrokeView>,
    at: Place,
    pressure: Option<Steps>,
    other: int,
)
    requires
        strokes.len() > 0,
        at.x.count is Some && at.y.count is Some,
        strokes.last().points.len() >= 4096,
        strokes.last().sane(),
        0 <= other < strokes.len(),
    ensures
        ({
            let now = extended(strokes, at, pressure);
            let (then, last) = (strokes.last(), now.last());
            &&& now.len() == strokes.len() + 1
            &&& now[other] == strokes[other]
            &&& last.points.len() == 2
            &&& last.points[0] == then.points.last()
            &&& last.points[1] == stored_place(at)
            &&& last.size == then.size && last.feather == then.feather && last.flow == then.flow
            &&& last.erase == then.erase && last.auto == then.auto
            &&& last.sensitivity == then.sensitivity
            &&& last.pressure_size == then.pressure_size
            &&& last.pressure_flow == then.pressure_flow
            &&& then.pressure.len() == 0 && pressure is None ==> last.pressure.len() == 0
            &&& then.pressure.len() > 0 || pressure is Some ==> last.pressure.len() == 2
            &&& then.pressure.len() > 0 ==> last.pressure[0] == then.pressure.last()
            &&& then.pressure.len() > 0 && pressure is None ==> last.pressure[1]
                == then.pressure.last()
            &&& pressure is Some ==> last.pressure[1] == stored_pressure_spec(pressure->0)
        }),
{
    let then = strokes.last();
    let on = continued(then, at, pressure);
    assert(on_photo(then.points[then.points.len() - 1].x));
    if then.pressure.len() > 0 {
        assert(a_pressure(then.pressure[then.pressure.len() - 1]));
    }
    assert forall|i: int| 0 <= i < on.points.len() implies storable(#[trigger] on.points[i]) by {}
    a_stroke_keeps_its_points(on, 0);
    a_stroke_keeps_its_points(on, 1);
    assert(then.pressure.len() == 0 || then.pressure.len() == then.points.len());
    sanitising_keeps_a_sane_stroke(then);
    assert(then.sanitised().size == on.sanitised().size);
    assert(then.sanitised().feather == on.sanitised().feather);
    assert(then.sanitised().flow == on.sanitised().flow);
    assert(then.sanitised().sensitivity == on.sanitised().sensitivity);
}

/// A key of the brush changes its one setting, held to what a stroke can
/// hold, and leaves the edit and every other setting.
pub proof fn a_brush_key_changes_its_setting(session: Session, wanted: Single)
    ensures
        ({
            let (tool, smaller, larger) = (
                session.adjust.brush,
                session.keyed(BrushKey::Smaller, wanted),
                session.keyed(BrushKey::Larger, wanted),
            );
            &&& smaller == larger
            &&& 0x3951_b717 <= wanted.bits <= 0x3f00_0000 ==> smaller.adjust.brush == (BrushTool {
                size: wanted,
                ..tool
            })
            &&& smaller.edit == session.edit && smaller.changed == session.changed
            &&& smaller.adjust.mask_overlay == session.adjust.mask_overlay
        }),
        ({
            let (tool, less, more) = (
                session.adjust.brush,
                session.keyed(BrushKey::LessFeather, wanted),
                session.keyed(BrushKey::MoreFeather, wanted),
            );
            &&& less == more
            &&& wanted.bits <= 0x42c8_0000 ==> less.adjust.brush == (BrushTool {
                feather: wanted,
                ..tool
            })
            &&& less.edit == session.edit && less.changed == session.changed
        }),
        ({
            let now = session.keyed(BrushKey::ToggleOverlay, wanted);
            &&& now.adjust.mask_overlay == !session.adjust.mask_overlay
            &&& now.adjust.brush == session.adjust.brush
            &&& now.develop_dirty && now.edit == session.edit && now.changed == session.changed
        }),
        ({
            let now = session.keyed(BrushKey::ToggleAuto, wanted);
            &&& now.adjust.brush == (BrushTool {
                auto: !session.adjust.brush.auto,
                ..session.adjust.brush
            })
            &&& now.edit == session.edit && now.changed == session.changed
        }),
        session.keyed(BrushKey::PutDown, wanted).adjust.brush.armed is None,
{
}

/// Arming a brush takes it into the hand: its component is armed, the overlay
/// is on and what it was is remembered, nothing is picked any more, and the
/// edit is as it was.
pub proof fn arming_takes_the_brush_into_the_hand(session: Session, component: usize)
    requires
        session.adjust.brush.armed is None,
    ensures
        session.arming(component).adjust.brush.armed == Some(component),
        session.arming(component).adjust.mask_overlay,
        session.arming(component).adjust.brush.overlay_before == Some(session.adjust.mask_overlay),
        session.arming(component).adjust.picking is None,
        session.arming(component).adjust.selected_mask == session.adjust.selected_mask,
        session.arming(component).adjust.brush.size == session.adjust.brush.size,
        session.arming(component).adjust.brush.flow == session.adjust.brush.flow,
        session.arming(component).adjust.brush.feather == session.adjust.brush.feather,
        session.arming(component).edit == session.edit,
        session.arming(component).changed == session.changed,
        !session.adjust.mask_overlay ==> session.arming(component).develop_dirty,
{
}

/// Putting the brush down ends the stroke and changes nothing of the edit.
pub proof fn putting_the_brush_down_keeps_the_edit(session: Session)
    ensures
        session.brush_down().edit == session.edit,
        session.brush_down().changed == session.changed,
        session.brush_down().status == session.status,
        session.brush_down().adjust.brush.armed is None,
        session.brush_down().adjust.brush.growing is None,
        session.brush_down().adjust.mask_overlay != session.adjust.mask_overlay
            ==> session.brush_down().develop_dirty,
        session.develop_dirty ==> session.brush_down().develop_dirty,
{
}

/// The armed brush is the armed component of the selected mask, when that is
/// a brush.
pub proof fn the_armed_brush_is_a_brush_of_the_selected_mask(session: Session)
    ensures
        session.armed_at() matches Some((mask, component)) ==> {
            &&& session.adjust.selected_mask == Some(mask as usize)
            &&& session.adjust.brush.armed == Some(component as usize)
            &&& 0 <= mask < session.edit.masks@.len()
            &&& 0 <= component < session.edit.masks@[mask].components@.len()
            &&& session.edit.masks@[mask].components@[component].source is Brush
            &&& session.armed_strokes()
                == session.edit.masks@[mask].components@[component].source->Brush_0@
        },
        session.adjust.brush.armed is None || session.adjust.selected_mask is None
            ==> session.armed_at() is None,
        (session.adjust.selected_mask matches Some(mask) && session.adjust.brush.armed matches Some(
            component,
        ) && mask < session.edit.masks@.len() && component
            < session.edit.masks@[mask as int].components@.len()
            && session.edit.masks@[mask as int].components@[component as int].source is Brush)
            ==> session.armed_at() is Some,
{
}

/// A frame offers every place the pointer was, in order, and then where it is
/// now; the frame of a press offers only where it is now.
pub proof fn a_frame_offers_where_the_pointer_was(
    started: bool,
    moves: Seq<Touchdown>,
    now: Touchdown,
)
    ensures
        offered_spec(false, moves, None) == moves,
        offered_spec(false, moves, Some(now)) == moves.push(now),
        offered_spec(true, moves, None).len() == 0,
        offered_spec(true, moves, Some(now)) == seq![now],
{
    assert(offered_spec(true, moves, Some(now)) =~= seq![now]);
}

/// The Paint button of a brush takes it into the hand and the next press of
/// the button puts it down; on anything but a brush it takes nothing. Neither
/// changes the edit.
pub proof fn the_paint_button_takes_up_and_puts_down(session: Session, component: usize)
    ensures
        session.toggled(component).edit == session.edit,
        session.toggled(component).changed == session.changed,
        session.adjust.brush.armed == Some(component) ==> session.toggled(
            component,
        ).adjust.brush.armed is None,
        session.adjust.selected_mask is None ==> session.toggled(component).adjust.brush.armed
            is None,
        session.adjust.selected_mask matches Some(mask) ==> {
            let is_brush = mask < session.edit.masks@.len() && component
                < session.edit.masks@[mask as int].components@.len()
                && session.edit.masks@[mask as int].components@[component as int].source is Brush;
            &&& is_brush && session.adjust.brush.armed != Some(component) ==> session.toggled(
                component,
            ).adjust.brush.armed == Some(component) && session.toggled(
                component,
            ).adjust.mask_overlay && session.toggled(component).toggled(
                component,
            ).adjust.brush.armed is None
            &&& !is_brush ==> session.toggled(component).adjust.brush.armed is None
        },
{
}

/// A brush stays in the hand only while it has something to paint into and no
/// prompt is up.
pub proof fn a_brush_with_nothing_to_paint_into_is_put_down(session: Session)
    ensures
        session.adjust.pending_switch is Some ==> session.checked().adjust.brush.armed is None,
        session.armed_at() is None ==> session.checked().adjust.brush.armed is None,
        session.adjust.pending_switch is None && session.armed_at() is Some ==> session.checked()
            == session,
        session.checked().edit == session.edit,
{
}

/// A press adds one stroke behind those that are there. It starts at the place
/// of the press, or with Shift goes there from where the last one ended, erases
/// as asked and has the brush of the tool, whose settings a stroke can hold.
pub proof fn a_press_adds_a_stroke_with_the_brush_of_the_tool(
    session: Session,
    at: Place,
    erase: bool,
    shift: bool,
    pressure: Option<Steps>,
    other: int,
)
    requires
        at.x.count is Some && at.y.count is Some,
        0x3951_b717 <= session.adjust.brush.size.bits <= 0x3f00_0000,
        session.adjust.brush.feather.bits <= 0x42c8_0000,
        0x3f80_0000 <= session.adjust.brush.flow.bits <= 0x42c8_0000,
        session.adjust.brush.sensitivity.bits <= 0x42c8_0000,
        forall|i: int|
            0 <= i < session.armed_strokes().len() ==> (#[trigger] session.armed_strokes()[i]).sane(),
        0 <= other < session.armed_strokes().len(),
    ensures
        ({
            let (tool, now) = (session.adjust.brush, session.pressed(at, erase, shift, pressure));
            let stroke = now.last();
            &&& now.len() == session.armed_strokes().len() + 1
            &&& now[other] == session.armed_strokes()[other]
            &&& stroke.points.last() == stored_place(at)
            &&& !shift ==> stroke.points.len() == 1
            &&& stroke.erase == erase
            &&& stroke.size == tool.size && stroke.feather == tool.feather
            &&& stroke.flow == tool.flow && stroke.auto == tool.auto
            &&& tool.auto ==> stroke.sensitivity == tool.sensitivity
            &&& stroke.pressure_size == tool.pressure_size
            &&& stroke.pressure_flow == tool.pressure_flow
            &&& pressure is None ==> stroke.pressure.len() == 0
            &&& pressure is Some ==> stroke.pressure.len() == stroke.points.len()
                && stroke.pressure.last() == stored_pressure_spec(pressure->0)
        }),
{
    let strokes = session.armed_strokes();
    let points = pressed_places(strokes, at, shift);
    let stroke = session.adjust.brush.stroke_spec(points, erase, pressure);
    assert forall|i: int| 0 <= i < points.len() implies storable(#[trigger] points[i]) by {
        if points.len() == 2 && i == 0 {
            the_last_place_is_storable(strokes);
        }
    }
    a_stroke_keeps_its_points(stroke, points.len() - 1);
    a_sane_setting_is_kept(stroke);
}

proof fn the_last_place_is_storable(strokes: Seq<StrokeView>)
    requires
        forall|i: int| 0 <= i < strokes.len() ==> (#[trigger] strokes[i]).sane(),
    ensures
        last_place(strokes) matches Some(place) ==> storable(place),
    decreases strokes.len(),
{
    if strokes.len() > 0 {
        let last = strokes[strokes.len() - 1];
        assert(last.sane());
        if last.points.len() > 0 {
            assert(on_photo(last.points[last.points.len() - 1].x));
        } else {
            assert forall|i: int| 0 <= i < strokes.drop_last().len() implies (
            #[trigger] strokes.drop_last()[i]).sane() by {
                assert(strokes[i].sane());
            }
            the_last_place_is_storable(strokes.drop_last());
        }
    }
}

/// A drag paints while a stroke is in hand and the pointer moved far enough: a
/// point with a place is taken as long as the stroke, or the brush, has room.
pub proof fn a_drag_paints_while_a_stroke_is_in_hand(session: Session, at: Place, due: bool)
    ensures
        session.adjust.brush.growing is None || !due || session.armed_at() is None
            ==> !session.takes_point(at, due),
        session.adjust.brush.growing is Some && due && session.armed_at() is Some
            && session.armed_strokes().len() > 0 && at.x.count is Some && at.y.count is Some
            && session.armed_strokes().last().points.len() < 4096 ==> session.takes_point(at, due),
        session.adjust.brush.growing is Some && due && session.armed_at() is Some && 0
            < session.armed_strokes().len() < 2000 ==> session.takes_point(at, due),
        session.armed_strokes().len() >= 2000 && session.armed_strokes().last().points.len() >= 4096
            ==> !session.takes_point(at, due),
{
}

/// A frame goes on to the pointer only with a brush in the hand: with the
/// prompt up, with nothing to paint into and after Esc it does not. A key does
/// what it asks, and no frame changes the edit.
pub proof fn a_frame_goes_on_with_a_brush_in_the_hand(
    session: Session,
    keys: BrushKeys,
    wanted: Single,
)
    ensures
        ({
            let (now, goes_on) = session.framed(keys, wanted);
            &&& now.edit == session.edit && now.changed == session.changed
            &&& goes_on <==> now.adjust.brush.armed is Some
            &&& session.adjust.brush.armed is None || session.adjust.pending_switch is Some
                || session.armed_at() is None ==> !goes_on
            &&& session.adjust.brush.armed is Some && session.adjust.pending_switch is None
                && session.armed_at() is Some ==> {
                &&& keys.escape && !keys.typing ==> !goes_on
                &&& !keys.escape || keys.typing ==> goes_on
                &&& keys.typing ==> now == session
                &&& keys.a && !keys.shift && !keys.typing && !keys.escape && !keys.other_modifier
                    && !keys.open && !keys.close && !keys.open_curly && !keys.close_curly && !keys.o
                    ==> now.adjust.brush.auto == !session.adjust.brush.auto
            }
        }),
{
}

} // verus!
