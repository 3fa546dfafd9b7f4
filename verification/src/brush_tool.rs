//! The brush as a tool: arming a brush component, turning the pointer into
//! strokes, and the keys. The strokes themselves are data; everything here is
//! what the window remembers and decides.
//!
//! A stroke starts on the press with the settings of that moment and ends on
//! the release. It is in the edit from its first dab, so the picture shows it
//! and the history sees one unsettled change while the pointer is down: one
//! stroke is one undo step.
//!
//! A pen paints with its pressure: a touch comes with its force, which a pen
//! has and a finger and a mouse have not, and each point of the stroke keeps
//! the force the pen had there. One touch paints; a second one ends the
//! stroke, because two fingers are a pinch and the view owns that.
//!
//! The settings (size, feather, flow, erase, Auto mask, its sensitivity and
//! the two pressure toggles) are tool state: never saved, never part of the
//! history. A stroke keeps the settings of its press.

use crate::brush::{
    last_place, Brush, Place, Steps, Stroke, StrokeView, DEFAULT_FEATHER, DEFAULT_SENSITIVITY,
    DEFAULT_SIZE, MAX_BRUSH_SIZE, MIN_BRUSH_SIZE, MIN_FLOW,
};
use crate::num::{single, Single, HUNDRED, ZERO};
use vstd::prelude::*;

verus! {

/// A place on the screen, in points.
#[derive(Clone, Copy, Debug)]
pub struct Spot {
    pub x: Single,
    pub y: Single,
}

impl Spot {
    pub open spec fn equals(self, other: Spot) -> bool {
        self.x.equals(other.x) && self.y.equals(other.y)
    }
}

impl PartialEq for Spot {
    fn eq(&self, other: &Self) -> (r: bool) {
        self.x == other.x && self.y == other.y
    }
}

impl vstd::std_specs::cmp::PartialEqSpecImpl for Spot {
    open spec fn obeys_eq_spec() -> bool {
        true
    }

    open spec fn eq_spec(&self, other: &Self) -> bool {
        self.equals(*other)
    }
}

/// The touch that paints. A touch comes twice: as a touch with its force, and
/// for the first touch also as what a mouse would send. The stroke takes its
/// points from the pointer, as it does for a mouse, and only its pressure
/// from the touch.
#[derive(Clone, Copy, Debug, PartialEq)]
pub struct TouchState {
    /// The touch that moves the pointer, while it is down.
    pub active: Option<u64>,
    /// Its force when it last reported one: a pen. A finger reports none.
    pub force: Option<Steps>,
}

impl Default for TouchState {
    fn default() -> (r: Self)
        ensures
            r == no_touch(),
    {
        TouchState { active: None, force: None }
    }
}

pub open spec fn no_touch() -> TouchState {
    TouchState { active: None, force: None }
}

impl TouchState {
    /// The pressure of the pen that is down.
    pub open spec fn pressing(self) -> Option<Steps> {
        if self.active is Some {
            self.force
        } else {
            None
        }
    }

    fn pressure(self) -> (r: Option<Steps>)
        ensures
            r == self.pressing(),
    {
        if self.active.is_some() {
            self.force
        } else {
            None
        }
    }
}

/// Where a touch is in its life.
#[derive(Clone, Copy, Debug, PartialEq, Eq, Structural)]
pub enum TouchPhase {
    Start,
    Move,
    End,
    Cancel,
}

/// What the window sent.
#[derive(Clone, Copy, Debug)]
pub enum Event {
    Touch { id: u64, phase: TouchPhase, force: Option<Steps> },
    PointerButton { pressed: bool },
    PointerMoved(Spot),
    Other,
}

/// What the events of one frame mean to the brush.
#[derive(Clone, Debug)]
pub struct FrameInput {
    /// Every place the pointer was, in order, each with the pressure of the
    /// pen at that moment, or `None` from a mouse or a finger.
    pub moves: Vec<(Spot, Option<Steps>)>,
    /// The pressure at the end of the frame: what a press takes.
    pub pressure: Option<Steps>,
    /// A second touch began while the first was down: two fingers are a
    /// pinch, which the view owns, and the stroke ends where it is.
    pub second_touch: bool,
}

/// A frame that has been read so far.
#[verifier::ext_equal]
pub struct Reading {
    pub touch: TouchState,
    /// A touch began in this frame.
    pub began: bool,
    pub moves: Seq<(Spot, Option<Steps>)>,
    pub second_touch: bool,
}

impl Reading {
    /// The reading after one more event.
    pub open spec fn after(self, event: Event) -> Reading {
        match event {
            Event::Touch { id, phase, force } => match phase {
                TouchPhase::Start => if self.touch.active is None {
                    Reading {
                        touch: TouchState { active: Some(id), force },
                        began: true,
                        ..self
                    }
                } else {
                    Reading {
                        second_touch: self.second_touch || self.touch.active != Some(id),
                        ..self
                    }
                },
                // A pen that lifts to no pressure reports none: the last
                // force stands.
                TouchPhase::Move => if self.touch.active == Some(id) && force is Some {
                    Reading { touch: TouchState { active: self.touch.active, force }, ..self }
                } else {
                    self
                },
                _ => if self.touch.active == Some(id) {
                    Reading { touch: no_touch(), ..self }
                } else {
                    self
                },
            },
            // A press that no touch of this frame began is the mouse's, and
            // a touch whose end never came counts for nothing any more.
            Event::PointerButton { pressed } => if pressed && !self.began {
                Reading { touch: no_touch(), ..self }
            } else {
                self
            },
            Event::PointerMoved(spot) => Reading {
                moves: self.moves.push((spot, self.touch.pressing())),
                ..self
            },
            Event::Other => self,
        }
    }
}

/// The reading after a run of events.
pub open spec fn read(touch: TouchState, events: Seq<Event>) -> Reading
    decreases events.len(),
{
    if events.len() == 0 {
        Reading { touch, began: false, moves: Seq::empty(), second_touch: false }
    } else {
        read(touch, events.drop_last()).after(events.last())
    }
}

/// Reads the events of a frame in the order the window sent them.
pub fn frame_input(events: &[Event], touch: &mut TouchState) -> (r: FrameInput)
    ensures
        ({
            let reading = read(*old(touch), events@);
            &&& *final(touch) == reading.touch
            &&& r.moves@ == reading.moves
            &&& r.pressure == reading.touch.pressing()
            &&& r.second_touch == reading.second_touch
        }),
{
    let mut now: TouchState = *touch;
    let mut moves: Vec<(Spot, Option<Steps>)> = Vec::new();
    let mut second_touch: bool = false;
    let mut began: bool = false;
    let mut i: usize = 0;
    assert(events@.take(0) =~= Seq::empty());
    while i < events.len()
        invariant
            0 <= i <= events@.len(),
            *touch == *old(touch),
            ({
                let reading = read(*old(touch), events@.take(i as int));
                &&& now == reading.touch
                &&& began == reading.began
                &&& moves@ == reading.moves
                &&& second_touch == reading.second_touch
            }),
        decreases events.len() - i,
    {
        assert(events@.take(i + 1).drop_last() =~= events@.take(i as int));
        assert(events@.take(i + 1).last() == events@[i as int]);
        match events[i] {
            Event::Touch { id, phase, force } => match phase {
                TouchPhase::Start => match now.active {
                    None => {
                        now = TouchState { active: Some(id), force };
                        began = true;
                    },
                    Some(active) => {
                        if active != id {
                            second_touch = true;
                        }
                    },
                },
                TouchPhase::Move => {
                    if is_active(now, id) && force.is_some() {
                        now = TouchState { active: now.active, force };
                    }
                },
                _ => {
                    if is_active(now, id) {
                        now = TouchState::default();
                    }
                },
            },
            Event::PointerButton { pressed } => {
                if pressed && !began {
                    now = TouchState::default();
                }
            },
            Event::PointerMoved(spot) => {
                moves.push((spot, now.pressure()));
            },
            Event::Other => {},
        }
        i += 1;
    }
    assert(events@.take(i as int) =~= events@);
    *touch = now;
    FrameInput { moves, pressure: now.pressure(), second_touch }
}

fn is_active(touch: TouchState, id: u64) -> (r: bool)
    ensures
        r == (touch.active == Some(id)),
{
    match touch.active {
        Some(active) => active == id,
        None => false,
    }
}

/// While a touch paints, another touch that moves or lifts changes nothing.
pub proof fn another_touch_changes_nothing(
    reading: Reading,
    id: u64,
    phase: TouchPhase,
    force: Option<Steps>,
)
    requires
        reading.touch.active is Some,
        reading.touch.active != Some(id),
        phase != TouchPhase::Start,
    ensures
        reading.after(Event::Touch { id, phase, force }) == reading,
{
}

/// A move of the pen keeps the last force it reported.
pub proof fn a_pen_keeps_its_last_force(reading: Reading, id: u64)
    requires
        reading.touch.active == Some(id),
    ensures
        reading.after(
            (Event::Touch { id, phase: TouchPhase::Move, force: None }),
        ).touch.pressing() == reading.touch.pressing(),
{
}

/// What the brush remembers between frames.
#[derive(Clone, Copy, Debug, PartialEq)]
pub struct BrushTool {
    /// The component of the selected mask that is armed: a plain drag on
    /// the picture paints into it.
    pub armed: Option<usize>,
    /// The radius as a fraction of the longer side of the photo.
    pub size: Single,
    pub feather: Single,
    pub flow: Single,
    /// The Erase toggle. Alt held does the same for one stroke.
    pub erase: bool,
    /// Auto mask: each dab of the next stroke paints only the colour under
    /// its centre, as close as `sensitivity` asks.
    pub auto: bool,
    pub sensitivity: Single,
    /// What the pressure of a pen scales in the next stroke. A mouse and a
    /// finger paint at full pressure whatever these say.
    pub pressure_size: bool,
    pub pressure_flow: bool,
    /// The touch that paints, from its start to its end, and its force.
    pub touch: TouchState,
    /// Where on the screen the stroke being painted took its last point.
    pub growing: Option<Spot>,
    /// What Show overlay was before the brush was armed.
    pub overlay_before: Option<bool>,
}

impl Default for BrushTool {
    fn default() -> (r: Self)
        ensures
            r == BrushTool::default_spec(),
    {
        BrushTool {
            armed: None,
            size: Single { bits: DEFAULT_SIZE },
            feather: Single { bits: DEFAULT_FEATHER },
            flow: Single { bits: HUNDRED },
            erase: false,
            auto: false,
            sensitivity: Single { bits: DEFAULT_SENSITIVITY },
            pressure_size: false,
            pressure_flow: true,
            touch: TouchState::default(),
            growing: None,
            overlay_before: None,
        }
    }
}

/// The same pressure at each of so many points.
pub open spec fn pressed_all(points: nat, pressure: Option<Steps>) -> Seq<Steps> {
    match pressure {
        Some(p) => Seq::new(points, |i: int| p),
        None => Seq::empty(),
    }
}

impl BrushTool {
    /// The brush of a window that was just opened.
    pub open spec fn default_spec() -> BrushTool {
        BrushTool {
            armed: None,
            size: single(DEFAULT_SIZE),
            feather: single(DEFAULT_FEATHER),
            flow: single(HUNDRED),
            erase: false,
            auto: false,
            sensitivity: single(DEFAULT_SENSITIVITY),
            pressure_size: false,
            pressure_flow: true,
            touch: no_touch(),
            growing: None,
            overlay_before: None,
        }
    }

    /// The brush in nobody's hand.
    pub open spec fn down(self) -> BrushTool {
        BrushTool { armed: None, growing: None, overlay_before: None, ..self }
    }

    /// Whether putting the brush down changes the overlay.
    pub open spec fn gives_back(self, overlay: bool) -> bool {
        self.armed is Some && self.overlay_before is Some && self.overlay_before->0 != overlay
    }

    /// The overlay once the brush is down.
    pub open spec fn overlay_after(self, overlay: bool) -> bool {
        if self.gives_back(overlay) {
            self.overlay_before->0
        } else {
            overlay
        }
    }

    /// The settings as the stroke a press starts.
    pub open spec fn stroke_spec(
        self,
        points: Seq<Place>,
        erase: bool,
        pressure: Option<Steps>,
    ) -> StrokeView {
        StrokeView {
            points,
            pressure: pressed_all(points.len(), pressure),
            size: self.size,
            feather: self.feather,
            flow: self.flow,
            erase,
            auto: self.auto,
            sensitivity: self.sensitivity,
            pressure_size: self.pressure_size,
            pressure_flow: self.pressure_flow,
        }
    }

    /// Whether a stroke is being painted.
    pub fn is_painting(&self) -> (r: bool)
        ensures
            r == (self.growing is Some),
    {
        self.growing.is_some()
    }

    /// The settings as the stroke a press starts. `pressure` is what the
    /// pen reports at the press, and every point of the press takes it; a
    /// mouse and a finger report none and the stroke holds none.
    pub fn stroke(&self, points: Vec<Place>, erase: bool, pressure: Option<Steps>) -> (r: Stroke)
        ensures
            r@ == self.stroke_spec(points@, erase, pressure),
    {
        let mut pressures: Vec<Steps> = Vec::new();
        if let Some(p) = pressure {
            let mut i: usize = 0;
            while i < points.len()
                invariant
                    0 <= i <= points@.len(),
                    pressures@ == pressed_all(i as nat, Some(p)),
                decreases points.len() - i,
            {
                pressures.push(p);
                i += 1;
                assert(pressures@ =~= pressed_all(i as nat, Some(p)));
            }
        }
        assert(pressures@ =~= pressed_all(points@.len(), pressure));
        Stroke {
            points,
            pressure: pressures,
            size: self.size,
            feather: self.feather,
            flow: self.flow,
            erase,
            auto: self.auto,
            sensitivity: self.sensitivity,
            pressure_size: self.pressure_size,
            pressure_flow: self.pressure_flow,
        }
    }

    /// Takes another size, `wanted` being the size times what the key or the
    /// slider asks for, and keeps it where a stroke can hold it.
    pub fn resize(&mut self, wanted: Single)
        ensures
            *final(self) == (BrushTool {
                size: wanted.held(single(MIN_BRUSH_SIZE), single(MAX_BRUSH_SIZE)),
                ..*old(self)
            }),
    {
        self.size = wanted.clamped(
            Single { bits: MIN_BRUSH_SIZE },
            Single { bits: MAX_BRUSH_SIZE },
        );
    }

    /// Takes another feather and keeps it from 0 to 100.
    pub fn soften(&mut self, wanted: Single)
        ensures
            *final(self) == (BrushTool {
                feather: wanted.held(single(ZERO), single(HUNDRED)),
                ..*old(self)
            }),
    {
        self.feather = wanted.clamped(Single { bits: ZERO }, Single { bits: HUNDRED });
    }

    /// The flow kept where a stroke can hold it.
    pub fn set_flow(&mut self, flow: Single)
        ensures
            *final(self) == (BrushTool {
                flow: flow.held(single(MIN_FLOW), single(HUNDRED)),
                ..*old(self)
            }),
    {
        self.flow = flow.clamped(Single { bits: MIN_FLOW }, Single { bits: HUNDRED });
    }

    /// Puts the brush down: the stroke in hand ends and `overlay` goes back
    /// to what it was before the brush was armed. Whether `overlay` changed.
    pub fn put_down(&mut self, overlay: &mut bool) -> (r: bool)
        ensures
            *final(self) == old(self).down(),
            *final(overlay) == old(self).overlay_after(*old(overlay)),
            r == old(self).gives_back(*old(overlay)),
    {
        self.growing = None;
        let before: Option<bool> = self.overlay_before;
        self.overlay_before = None;
        let armed: Option<usize> = self.armed;
        self.armed = None;
        if armed.is_none() {
            return false;
        }
        match before {
            Some(before) => {
                if *overlay != before {
                    *overlay = before;
                    true
                } else {
                    false
                }
            },
            None => false,
        }
    }
}

/// Whether a stroke erases: the toggle is on or Alt is held.
pub fn erases(toggle: bool, alt: bool) -> (r: bool)
    ensures
        toggle ==> r,
        alt ==> r,
        !toggle && !alt ==> !r,
        r == (toggle || alt),
{
    toggle || alt
}

/// Whether a stroke ends: the drag is over, or a second touch came.
pub fn stroke_ends(dragged: bool, second_touch: bool) -> (r: bool)
    ensures
        r == (!dragged || second_touch),
{
    !dragged || second_touch
}

/// The points a press starts a stroke with.
pub open spec fn pressed_places(strokes: Seq<StrokeView>, at: Place, shift: bool) -> Seq<Place> {
    match last_place(strokes) {
        Some(from) => if shift {
            seq![from, at]
        } else {
            seq![at]
        },
        None => seq![at],
    }
}

/// The points a press starts a stroke with: the place of the press, or with
/// Shift a straight line to it from where the last stroke ended. A brush
/// that holds no stroke yet has nowhere to draw a line from.
pub fn pressed_points(brush: &Brush, at: Place, shift: bool) -> (r: Vec<Place>)
    ensures
        r@ == pressed_places(brush@, at, shift),
{
    let mut points: Vec<Place> = Vec::new();
    if let Some(from) = brush.last_point() {
        if shift {
            points.push(from);
        }
    }
    points.push(at);
    assert(points@ =~= pressed_places(brush@, at, shift));
    points
}

/// What the brush keys ask for.
#[derive(Clone, Copy, Debug, PartialEq, Eq, Structural)]
pub enum BrushKey {
    Smaller,
    Larger,
    LessFeather,
    MoreFeather,
    ToggleOverlay,
    ToggleAuto,
    PutDown,
}

/// The brush keys as they are this frame.
#[derive(Clone, Copy, Debug, PartialEq, Eq, Structural)]
pub struct BrushKeys {
    /// A brush is armed.
    pub armed: bool,
    /// A text field has the keyboard.
    pub typing: bool,
    /// Ctrl or Cmd is held: the key belongs to something else. Alt does not
    /// count, because a hand that erases holds it.
    pub other_modifier: bool,
    pub shift: bool,
    /// `[` and `]`, and what Shift makes of them on a keyboard that reports
    /// the character: `{` and `}`.
    pub open: bool,
    pub close: bool,
    pub open_curly: bool,
    pub close_curly: bool,
    pub o: bool,
    pub a: bool,
    pub escape: bool,
}

impl Default for BrushKeys {
    fn default() -> (r: Self)
        ensures
            r == (BrushKeys {
                armed: false,
                typing: false,
                other_modifier: false,
                shift: false,
                open: false,
                close: false,
                open_curly: false,
                close_curly: false,
                o: false,
                a: false,
                escape: false,
            }),
    {
        BrushKeys {
            armed: false,
            typing: false,
            other_modifier: false,
            shift: false,
            open: false,
            close: false,
            open_curly: false,
            close_curly: false,
            o: false,
            a: false,
            escape: false,
        }
    }
}

impl BrushKeys {
    /// Whether a bracket with Shift, or a curly bracket, is down.
    pub open spec fn feathers_less(self) -> bool {
        self.open_curly || (self.shift && self.open)
    }

    pub open spec fn feathers_more(self) -> bool {
        self.close_curly || (self.shift && self.close)
    }

    /// What the keys ask for when they are the brush's, in the order in
    /// which one of several counts.
    pub open spec fn asked(self) -> Option<BrushKey> {
        if self.feathers_less() {
            Some(BrushKey::LessFeather)
        } else if self.feathers_more() {
            Some(BrushKey::MoreFeather)
        } else if self.open {
            Some(BrushKey::Smaller)
        } else if self.close {
            Some(BrushKey::Larger)
        } else if self.o && !self.shift {
            Some(BrushKey::ToggleOverlay)
        } else if self.a && !self.shift {
            Some(BrushKey::ToggleAuto)
        } else {
            None
        }
    }
}

impl BrushKeys {
    /// What the keys do this frame.
    pub open spec fn acted(self) -> Option<BrushKey> {
        if !self.armed || self.typing {
            None
        } else if self.escape {
            Some(BrushKey::PutDown)
        } else if self.other_modifier {
            None
        } else {
            self.asked()
        }
    }
}

/// The brush keys work only while a brush is armed and nobody types. `[`
/// and `]` make the brush smaller and larger, with Shift they move the
/// feather, O shows and hides the overlay, A turns Auto mask on and off,
/// Esc puts the brush down.
pub fn brush_key(keys: BrushKeys) -> (r: Option<BrushKey>)
    ensures
        r == keys.acted(),
        !keys.armed || keys.typing ==> r is None,
        keys.armed && !keys.typing && keys.escape ==> r == Some(BrushKey::PutDown),
        keys.armed && !keys.typing && !keys.escape && keys.other_modifier ==> r is None,
        keys.armed && !keys.typing && !keys.escape && !keys.other_modifier ==> r == keys.asked(),
{
    if !keys.armed || keys.typing {
        return None;
    }
    if keys.escape {
        return Some(BrushKey::PutDown);
    }
    if keys.other_modifier {
        return None;
    }
    if keys.open_curly || (keys.shift && keys.open) {
        Some(BrushKey::LessFeather)
    } else if keys.close_curly || (keys.shift && keys.close) {
        Some(BrushKey::MoreFeather)
    } else if keys.open {
        Some(BrushKey::Smaller)
    } else if keys.close {
        Some(BrushKey::Larger)
    } else if keys.o && !keys.shift {
        Some(BrushKey::ToggleOverlay)
    } else if keys.a && !keys.shift {
        Some(BrushKey::ToggleAuto)
    } else {
        None
    }
}

/// A stroke keeps the settings of its press, whatever it does: painting or
/// erasing, with a pen or without, its numbers and flags are those of the
/// tool, its points the points of the press, and it erases as asked.
pub proof fn a_stroke_keeps_the_settings_of_its_press(
    tool: BrushTool,
    points: Seq<Place>,
    erase: bool,
    pressure: Option<Steps>,
)
    ensures
        ({
            let stroke = tool.stroke_spec(points, erase, pressure);
            &&& stroke.points == points
            &&& stroke.size == tool.size
            &&& stroke.feather == tool.feather
            &&& stroke.flow == tool.flow
            &&& stroke.sensitivity == tool.sensitivity
            &&& stroke.auto == tool.auto
            &&& stroke.pressure_size == tool.pressure_size
            &&& stroke.pressure_flow == tool.pressure_flow
            &&& stroke.erase == erase
        }),
{
}

/// Two strokes of one press that differ in whether they erase differ in
/// nothing else, and what the tool holds beside the settings of a stroke (the
/// armed component, the Erase toggle, the touch, the overlay) is in no stroke.
pub proof fn a_stroke_differs_only_in_what_was_asked(
    tool: BrushTool,
    other: BrushTool,
    points: Seq<Place>,
    pressure: Option<Steps>,
)
    requires
        tool.size == other.size && tool.feather == other.feather && tool.flow == other.flow,
        tool.sensitivity == other.sensitivity && tool.auto == other.auto,
        tool.pressure_size == other.pressure_size && tool.pressure_flow == other.pressure_flow,
    ensures
        tool.stroke_spec(points, true, pressure) == (StrokeView {
            erase: true,
            ..other.stroke_spec(points, false, pressure)
        }),
{
}

/// A stroke of a pen holds the pressure of the press at each of its points; a
/// stroke of a mouse or a finger holds none.
pub proof fn each_point_of_a_press_takes_its_pressure(
    tool: BrushTool,
    points: Seq<Place>,
    erase: bool,
    force: Steps,
    i: int,
)
    requires
        0 <= i < points.len(),
    ensures
        tool.stroke_spec(points, erase, Some(force)).pressure.len() == points.len(),
        tool.stroke_spec(points, erase, Some(force)).pressure[i] == force,
        tool.stroke_spec(points, erase, None).pressure.len() == 0,
{
}

/// The moves of a frame are where the pointer was, in the order the window
/// sent them: as many as there are pointer moves, and no touch, press or
/// other event adds or takes one.
pub proof fn a_pointer_move_is_one_move(reading: Reading, event: Event)
    ensures
        event is PointerMoved ==> reading.after(event).moves.len() == reading.moves.len() + 1,
        event matches Event::PointerMoved(spot) ==> reading.after(event).moves.last().0 == spot,
        event is PointerMoved ==> reading.after(event).moves.drop_last() == reading.moves,
        event !is PointerMoved ==> reading.after(event).moves == reading.moves,
        event is PointerMoved ==> reading.after(event).touch == reading.touch,
{
    if let Event::PointerMoved(spot) = event {
        assert(reading.after(event).moves.drop_last() =~= reading.moves);
    }
}

/// A pen's move carries the force it last reported, a mouse's none: a move
/// has a pressure only while a touch is down.
pub proof fn a_move_takes_the_force_of_the_touch(reading: Reading, spot: Spot)
    ensures
        reading.touch.active is None ==> reading.after(Event::PointerMoved(spot)).moves.last().1
            is None,
        reading.touch.active is Some ==> reading.after(Event::PointerMoved(spot)).moves.last().1
            == reading.touch.force,
{
}

/// The first touch of a frame paints with the force it reports, its moves
/// that report a force change it, and its end or its loss leaves no force.
pub proof fn a_touch_paints_from_its_start_to_its_end(
    reading: Reading,
    id: u64,
    force: Option<Steps>,
)
    ensures
        reading.touch.active is None ==> ({
            let now = reading.after((Event::Touch { id, phase: TouchPhase::Start, force }));
            &&& now.touch.active == Some(id) && now.touch.force == force
            &&& now.began && now.second_touch == reading.second_touch
        }),
        reading.touch.active == Some(id) && force is Some ==> reading.after(
            (Event::Touch { id, phase: TouchPhase::Move, force }),
        ).touch == (TouchState { active: Some(id), force }),
        reading.touch.active == Some(id) ==> ({
            let end = reading.after((Event::Touch { id, phase: TouchPhase::End, force }));
            let lost = reading.after((Event::Touch { id, phase: TouchPhase::Cancel, force }));
            &&& end.touch.active is None && end.touch.force is None
            &&& lost.touch.active is None && lost.touch.force is None
        }),
{
}

/// A second touch is one that starts while another is down, and it leaves the
/// first one painting; no other event is taken for one, and none takes the
/// sign back.
pub proof fn a_second_touch_is_told(reading: Reading, event: Event)
    ensures
        reading.second_touch ==> reading.after(event).second_touch,
        !reading.second_touch && reading.after(event).second_touch ==> event is Touch
            && event->phase == TouchPhase::Start && reading.touch.active is Some
            && reading.touch.active != Some(event->id),
        event is Touch && event->phase == TouchPhase::Start && reading.touch.active is Some
            && reading.touch.active != Some(event->id) ==> reading.after(event).second_touch
            && reading.after(event).touch == reading.touch,
{
}

/// A press with no touch of its frame is a mouse's: no force is left over
/// from a pen. A press that a touch of the frame began keeps its force, and a
/// release changes nothing.
pub proof fn a_mouse_press_forgets_the_pen(reading: Reading)
    ensures
        !reading.began ==> reading.after((Event::PointerButton { pressed: true })).touch.active
            is None && reading.after((Event::PointerButton { pressed: true })).touch.force is None,
        reading.began ==> reading.after((Event::PointerButton { pressed: true })) == reading,
        reading.after((Event::PointerButton { pressed: false })) == reading,
        reading.after(Event::Other) == reading,
{
}

/// A frame is read event by event: what the last event does is done to what
/// the ones before it left, and a frame without events changes nothing.
pub proof fn a_frame_is_read_in_order(touch: TouchState, events: Seq<Event>, event: Event)
    ensures
        read(touch, events.push(event)) == read(touch, events).after(event),
        read(touch, Seq::empty()).touch == touch,
        read(touch, Seq::empty()).moves.len() == 0,
        !read(touch, Seq::empty()).second_touch && !read(touch, Seq::empty()).began,
{
    assert(events.push(event).drop_last() =~= events);
}

/// A brush that is put down is in nobody's hand and paints no stroke; its
/// settings stay for the next time.
pub proof fn a_put_down_brush_keeps_its_settings(tool: BrushTool, overlay: bool)
    ensures
        tool.down().armed is None && tool.down().growing is None,
        tool.down().overlay_before is None,
        tool.down().size == tool.size && tool.down().feather == tool.feather,
        tool.down().flow == tool.flow && tool.down().erase == tool.erase,
        tool.down().auto == tool.auto && tool.down().sensitivity == tool.sensitivity,
        tool.down().pressure_size == tool.pressure_size,
        tool.down().pressure_flow == tool.pressure_flow,
        tool.down().touch == tool.touch,
        tool.armed is Some && tool.overlay_before is Some ==> tool.overlay_after(overlay)
            == tool.overlay_before->0,
        tool.armed is None || tool.overlay_before is None ==> tool.overlay_after(overlay)
            == overlay,
        tool.gives_back(overlay) <==> tool.overlay_after(overlay) != overlay,
{
}

/// A press starts at its place. With Shift the stroke begins where the last
/// one ended and goes straight to the press, when there is a last one.
pub proof fn a_press_starts_at_its_place(
    strokes: Seq<StrokeView>,
    at: Place,
    shift: bool,
)
    ensures
        pressed_places(strokes, at, shift).last() == at,
        !shift ==> pressed_places(strokes, at, shift).len() == 1,
        last_place(strokes) is None ==> pressed_places(strokes, at, shift).len() == 1,
        shift && last_place(strokes) is Some ==> pressed_places(strokes, at, shift).len() == 2
            && pressed_places(strokes, at, shift)[0] == last_place(strokes)->0,
{
}

/// Each brush key asks for one thing, whatever else is not held: the brackets
/// for the size, with Shift for the feather, O for the overlay and A for Auto
/// mask. A key that is not down asks for nothing.
pub proof fn a_brush_key_asks_for_its_thing(keys: BrushKeys)
    ensures
        keys.asked() == Some(BrushKey::Smaller) ==> keys.open && !keys.shift,
        keys.asked() == Some(BrushKey::Larger) ==> keys.close && !keys.shift,
        keys.asked() == Some(BrushKey::LessFeather) ==> keys.open_curly || keys.open && keys.shift,
        keys.asked() == Some(BrushKey::MoreFeather) ==> keys.close_curly || keys.close
            && keys.shift,
        keys.asked() == Some(BrushKey::ToggleOverlay) ==> keys.o && !keys.shift,
        keys.asked() == Some(BrushKey::ToggleAuto) ==> keys.a && !keys.shift,
        keys.asked() != Some(BrushKey::PutDown),
        keys.asked() is None ==> !keys.open && !keys.close && !keys.open_curly
            && !keys.close_curly && (keys.shift || !keys.o && !keys.a),
        keys.open && !keys.shift && !keys.open_curly && !keys.close_curly ==> keys.asked() == Some(
            BrushKey::Smaller,
        ),
        keys.close && !keys.open && !keys.shift && !keys.open_curly && !keys.close_curly
            ==> keys.asked() == Some(BrushKey::Larger),
{
}

/// The keys are the brush's only while one is armed and nobody types. Esc puts
/// it down whatever else is held; with Ctrl or Cmd every other key belongs to
/// something else, and Alt changes nothing.
pub proof fn the_keys_are_the_brush_s_while_it_is_armed(keys: BrushKeys)
    ensures
        !keys.armed || keys.typing ==> keys.acted() is None,
        keys.armed && !keys.typing && keys.escape ==> keys.acted() == Some(BrushKey::PutDown),
        keys.armed && !keys.typing && !keys.escape && keys.other_modifier ==> keys.acted() is None,
        !keys.escape ==> keys.acted() != Some(BrushKey::PutDown),
        keys.armed && !keys.typing && !keys.escape && !keys.other_modifier ==> {
            &&& keys.shift && keys.open ==> keys.acted() == Some(BrushKey::LessFeather)
            &&& keys.shift && keys.close && !keys.open && !keys.open_curly ==> keys.acted() == Some(
                BrushKey::MoreFeather,
            )
            &&& keys.open_curly ==> keys.acted() == Some(BrushKey::LessFeather)
            &&& keys.close_curly && !keys.open_curly && !(keys.shift && keys.open) ==> keys.acted()
                == Some(BrushKey::MoreFeather)
            &&& !keys.shift && !keys.open_curly && !keys.close_curly ==> {
                &&& keys.open ==> keys.acted() == Some(BrushKey::Smaller)
                &&& keys.close && !keys.open ==> keys.acted() == Some(BrushKey::Larger)
                &&& keys.o && !keys.open && !keys.close ==> keys.acted() == Some(
                    BrushKey::ToggleOverlay,
                )
                &&& keys.a && !keys.o && !keys.open && !keys.close ==> keys.acted() == Some(
                    BrushKey::ToggleAuto,
                )
            }
        },
{
}

/// Two spots are one when both their coordinates are the same numbers.
pub proof fn two_spots_are_one_on_both_axes(a: Spot, b: Spot)
    ensures
        a.equals(b) ==> a.x.equals(b.x),
        a.equals(b) ==> a.y.equals(b.y),
        a.x.equals(b.x) && a.y.equals(b.y) ==> a.equals(b),
{
}

} // verus!
