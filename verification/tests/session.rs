//! The brush on the session, walked the way the window walks it: the Paint
//! button arms a component, a press starts a stroke, the pointer grows it
//! frame by frame while the history is shown an unsettled change, and the
//! release lets it settle.

use gamut::brush::{Brush, Place, SharedStroke, Steps, Stroke, MAX_STROKES, MAX_STROKE_POINTS};
use gamut::brush_tool::{BrushKey, BrushKeys, Spot};
use gamut::edit::PhotoEdit;
use gamut::history::History;
use gamut::mask::{Component, LinearGradient, Mask, MaskSource, RadialGradient};
use gamut::num::Single;
use gamut::session::{offered, Session, Touchdown};

/// The picture fills a square of 1000 points from the origin, so a position
/// on the photo is a thousandth of its place on the screen.
const SIDE: f32 = 1000.0;

const SIZE_STEP: f32 = 1.1;
const FEATHER_STEP: f32 = 5.0;

fn n(value: f32) -> Single {
    Single::from_bits(value.to_bits())
}

fn value(number: Single) -> f32 {
    f32::from_bits(number.bits)
}

fn place(at: [f32; 2]) -> Place {
    let steps = |v: f32| Steps {
        count: Some((f64::from(v) * 1e6).round() as i64),
        minus_zero: false,
    };
    Place {
        x: steps(at[0]),
        y: steps(at[1]),
    }
}

fn screen(at: [f32; 2]) -> Spot {
    Spot {
        x: n(at[0] * SIDE),
        y: n(at[1] * SIDE),
    }
}

/// Whether a point is due: a quarter radius from the last, and never under a
/// pixel.
fn due(from: Spot, to: Spot, radius: f32, pixels_per_point: f32) -> bool {
    let (dx, dy) = (value(to.x) - value(from.x), value(to.y) - value(from.y));
    let least = (radius * 0.25).max(1.0 / pixels_per_point);
    dx * dx + dy * dy >= least * least
}

/// A session with the history of its edit.
struct Window {
    session: Session,
    history: History<PhotoEdit>,
}

impl Window {
    fn new(session: Session) -> Self {
        let history = History::new(session.edit.clone());
        Window { session, history }
    }

    fn settle(&mut self) {
        self.history.observe(&self.session.edit, true);
    }

    /// A frame with the pointer down.
    fn drag_frame(&mut self) {
        self.history.observe(&self.session.edit, false);
    }

    fn undo(&mut self) -> bool {
        let state = self.history.undo(&self.session.edit);
        self.take(state)
    }

    fn redo(&mut self) -> bool {
        let state = self.history.redo(&self.session.edit);
        self.take(state)
    }

    fn take(&mut self, state: Option<PhotoEdit>) -> bool {
        match state {
            Some(edit) => {
                self.session.edit = edit;
                self.session.end_stroke();
                self.session.check_brush();
                self.session.mark_edited();
                true
            }
            None => false,
        }
    }

    fn brush(&self) -> &Brush {
        brush(&self.session)
    }

    fn move_to(&mut self, at: [f32; 2], pixels_per_point: f32) {
        let radius = value(self.session.adjust.brush.size) * SIDE;
        let due = self
            .session
            .adjust
            .brush
            .growing
            .is_some_and(|from| due(from, screen(at), radius, pixels_per_point));
        self.session.extend_stroke(place(at), screen(at), due, None);
    }

    /// Paints one stroke through `path` the way the window does: the press, a
    /// frame for every place with the pointer down, the release, a settled
    /// frame.
    fn paint(&mut self, path: &[[f32; 2]], erase: bool, shift: bool) {
        assert!(self
            .session
            .begin_stroke(place(path[0]), screen(path[0]), erase, shift, None));
        self.drag_frame();
        for at in &path[1..] {
            self.move_to(*at, 1.0);
            self.drag_frame();
        }
        self.session.end_stroke();
        self.settle();
    }
}

fn brush(session: &Session) -> &Brush {
    match &session.edit.masks[0].components[0].source {
        MaskSource::Brush(brush) => brush,
        other => panic!("a brush, not {other:?}"),
    }
}

/// A photo session with one brush mask selected and its brush armed.
fn armed() -> Window {
    let mut session = Session::default();
    session
        .edit
        .masks
        .push(Mask::new("Brush", MaskSource::Brush(Brush::default())));
    session.edit.masks[0].adjust.exposure = n(1.0);
    let mut window = Window::new(session);
    window.session.adjust.select_mask(Some(0));
    window.session.toggle_brush(0);
    assert_eq!(window.session.adjust.brush.armed, Some(0));
    window
}

fn line(from: [f32; 2], to: [f32; 2], frames: usize) -> Vec<[f32; 2]> {
    (0..=frames)
        .map(|i| {
            let t = i as f32 / frames as f32;
            [
                from[0] + (to[0] - from[0]) * t,
                from[1] + (to[1] - from[1]) * t,
            ]
        })
        .collect()
}

#[test]
fn one_stroke_of_many_frames_is_one_undo() {
    let mut w = armed();
    let path = line([0.2, 0.3], [0.7, 0.6], 80);
    assert!(w
        .session
        .begin_stroke(place(path[0]), screen(path[0]), false, false, None));
    assert_eq!(w.brush().strokes.len(), 1, "in the edit from its first dab");
    assert!(w.session.develop_dirty, "and on the picture");
    for at in &path[1..] {
        w.move_to(*at, 1.0);
        w.drag_frame();
        assert_eq!(
            w.history.undo_steps(),
            0,
            "no step while the pointer is down"
        );
    }
    w.session.end_stroke();
    w.settle();
    assert_eq!(w.history.undo_steps(), 1);
    assert_eq!(w.brush().strokes.len(), 1);
    let points = w.brush().strokes[0].get().points.len();
    assert!(points > 20 && points <= 81, "{points} points");

    w.paint(&line([0.3, 0.7], [0.6, 0.2], 40), false, false);
    assert_eq!(w.history.undo_steps(), 2);
    assert!(w.undo());
    assert_eq!(w.brush().strokes.len(), 1, "one stroke goes");
    assert!(w.undo());
    assert!(w.brush().strokes.is_empty());
    assert!(!w.undo(), "and nothing before the first stroke");
    assert!(w.redo() && w.redo());
    assert_eq!(w.brush().strokes.len(), 2);
    assert_eq!(
        w.session.adjust.brush.armed,
        Some(0),
        "the brush stays in the hand"
    );
}

#[test]
fn a_stroke_takes_a_point_every_quarter_radius_of_the_pointer() {
    let mut w = armed();
    w.session.adjust.brush.size = n(0.04);
    // 0.4 of the photo in 400 frames of a thousandth: a point every 0.01.
    w.paint(&line([0.2, 0.5], [0.6, 0.5], 400), false, false);
    let points = &w.brush().strokes[0].get().points;
    assert!((40..=41).contains(&points.len()), "{} points", points.len());
    assert_eq!(points[0], place([0.2, 0.5]));
    let second = points[1].x.count.expect("a count") as f64 / 1e6;
    assert!((second - 0.21).abs() < 1e-3, "{second}");
    // A click without a move is one point: one dab.
    w.paint(&[[0.8, 0.8]], false, false);
    assert_eq!(w.brush().strokes[1].get().points, [place([0.8, 0.8])]);
}

#[test]
fn a_stroke_carries_the_settings_of_the_press_and_they_are_no_history() {
    let mut w = armed();
    w.session.adjust.brush.size = n(0.05);
    w.session.adjust.brush.feather = n(20.0);
    w.session.adjust.brush.flow = n(35.0);
    w.settle();
    assert_eq!(
        w.history.undo_steps(),
        0,
        "the settings of the tool are no step"
    );
    w.paint(&line([0.2, 0.2], [0.4, 0.2], 10), false, false);
    // Changed after the press, the next stroke has them and the last does not.
    w.session.brush_key(BrushKey::Larger, n(0.05 * SIZE_STEP));
    w.session
        .brush_key(BrushKey::MoreFeather, n(20.0 + FEATHER_STEP));
    w.paint(&line([0.2, 0.4], [0.4, 0.4], 10), false, false);
    let strokes = &w.brush().strokes;
    let first = strokes[0].get();
    assert_eq!(
        (value(first.size), value(first.feather), value(first.flow)),
        (0.05, 20.0, 35.0)
    );
    assert!((value(strokes[1].get().size) - 0.05 * SIZE_STEP).abs() < 1e-6);
    assert_eq!(value(strokes[1].get().feather), 20.0 + FEATHER_STEP);
    assert_eq!(w.history.undo_steps(), 2, "two strokes, two steps");
    // An undo gives the stroke back and leaves the tool as it is.
    assert!(w.undo());
    assert!((value(w.session.adjust.brush.size) - 0.05 * SIZE_STEP).abs() < 1e-6);
}

#[test]
fn alt_or_the_toggle_erases_and_shift_draws_a_line_from_the_last_stroke() {
    let mut w = armed();
    w.paint(&line([0.2, 0.2], [0.4, 0.3], 20), false, false);
    let end = *w.brush().strokes[0].get().points.last().expect("points");
    // Shift with a click: a straight line from where the last stroke ended.
    w.paint(&[[0.8, 0.25]], false, true);
    assert_eq!(
        w.brush().strokes[1].get().points,
        [end, place([0.8, 0.25])]
    );
    assert!(!w.brush().strokes[1].get().erase);
    // Alt held for one stroke.
    w.paint(&line([0.3, 0.1], [0.3, 0.4], 20), true, false);
    assert!(w.brush().strokes[2].get().erase);
    // The toggle, as the window passes it: the toggle or Alt.
    w.session.adjust.brush.erase = true;
    let erase = w.session.adjust.brush.erase;
    w.paint(&[[0.5, 0.5]], erase, false);
    assert!(w.brush().strokes[3].get().erase);
    assert_eq!(w.history.undo_steps(), 4);
    // With Shift and nothing painted yet a click is a dab.
    let mut fresh = armed();
    fresh.paint(&[[0.5, 0.5]], false, true);
    assert_eq!(fresh.brush().strokes[0].get().points, [place([0.5, 0.5])]);
}

/// Makes one change, lets it settle, and holds that an undo gives the state
/// before it back and a redo the state after it.
fn round_trip(w: &mut Window, name: &str, change: impl FnOnce(&mut Session)) {
    w.settle();
    let before = w.session.edit.clone();
    let steps = w.history.undo_steps();
    change(&mut w.session);
    w.settle();
    let after = w.session.edit.clone();
    assert!(before != after, "{name}: the change changed nothing");
    assert_eq!(w.history.undo_steps(), steps + 1, "{name}: one step");
    assert!(w.undo(), "{name}: undo");
    assert!(w.session.edit == before, "{name}: undone");
    assert!(w.session.develop_dirty, "{name}: the picture is stale");
    assert!(w.redo(), "{name}: redo");
    assert!(w.session.edit == after, "{name}: redone");
    w.settle();
    assert_eq!(w.history.undo_steps(), steps + 1, "{name}: still one step");
}

#[test]
fn an_erase_stroke_clear_strokes_and_a_deleted_component_undo_and_redo() {
    let mut w = armed();
    w.paint(&line([0.2, 0.3], [0.7, 0.6], 40), false, false);
    w.paint(&line([0.2, 0.6], [0.7, 0.3], 40), false, false);
    round_trip(&mut w, "an erase stroke", |s| {
        let path = line([0.4, 0.2], [0.5, 0.7], 30);
        assert!(s.begin_stroke(place(path[0]), screen(path[0]), true, false, None));
        for at in &path[1..] {
            s.extend_stroke(place(*at), screen(*at), true, None);
        }
        s.end_stroke();
    });
    assert_eq!(w.brush().strokes.len(), 3);
    round_trip(&mut w, "Clear strokes", |s| {
        s.clear_strokes(0);
        assert!(brush(s).strokes.is_empty());
    });
    // A second component, then the brush component deleted as the panel does.
    w.session.edit.masks[0]
        .components
        .push(Component::new(MaskSource::Linear(LinearGradient::default())));
    w.session.mark_edited();
    round_trip(&mut w, "a deleted brush component", |s| {
        s.edit.masks[0].components.remove(0);
        s.adjust.put_brush_down();
        s.mark_edited();
    });
    // Redone, the brush component is gone and so is the brush.
    assert!(matches!(
        w.session.edit.masks[0].components[0].source,
        MaskSource::Linear(_)
    ));
    assert_eq!(w.session.adjust.brush.armed, None);
    // Undone, the strokes are back; clearing nothing is no step.
    assert!(w.undo());
    assert!(w.brush().strokes.is_empty(), "as Clear strokes left it");
    let steps = w.history.undo_steps();
    w.session.clear_strokes(0);
    w.settle();
    assert_eq!(w.history.undo_steps(), steps);
}

#[test]
fn what_puts_the_brush_down_and_gives_the_overlay_back() {
    // Arming turns the overlay on; putting the brush down gives it back.
    let mut session = armed().session;
    assert!(session.adjust.mask_overlay);
    assert_eq!(session.adjust.overlay(), Some(0));
    session.toggle_brush(0);
    assert_eq!(session.adjust.brush.armed, None, "Paint pressed again");
    assert!(!session.adjust.mask_overlay, "the overlay was off before");

    // An overlay that was on before stays on afterwards.
    session.adjust.mask_overlay = true;
    session.toggle_brush(0);
    session.brush_key(BrushKey::PutDown, n(0.0));
    assert_eq!(session.adjust.brush.armed, None, "Esc");
    assert!(session.adjust.mask_overlay);

    // O and the checkbox still toggle it while armed; down, it is as before.
    session.adjust.mask_overlay = false;
    session.toggle_brush(0);
    session.brush_key(BrushKey::ToggleOverlay, n(0.0));
    assert!(!session.adjust.mask_overlay, "O hides it while painting");
    session.brush_key(BrushKey::ToggleOverlay, n(0.0));
    assert!(session.adjust.mask_overlay);
    session.put_brush_down();
    assert!(!session.adjust.mask_overlay);

    // Done, which selects no mask, and another mask selected.
    session.toggle_brush(0);
    session.adjust.select_mask(None);
    assert_eq!(session.adjust.brush.armed, None, "Done");
    session.edit.masks.push(Mask::new(
        "Radial",
        MaskSource::Radial(RadialGradient::default()),
    ));
    session.adjust.select_mask(Some(0));
    session.toggle_brush(0);
    session.adjust.select_mask(Some(1));
    assert_eq!(session.adjust.brush.armed, None, "another mask");
    // A component that is no brush cannot be armed.
    session.toggle_brush(0);
    assert_eq!(session.adjust.brush.armed, None);
    assert!(
        !session.adjust.mask_overlay,
        "and the overlay is left alone"
    );
}

#[test]
fn the_brush_is_put_down_under_the_save_discard_cancel_prompt() {
    let mut w = armed();
    w.paint(&line([0.2, 0.3], [0.7, 0.6], 40), false, false);
    w.session.adjust.pending_switch = Some("Kept".to_string());
    // The frame under the prompt.
    w.session.check_brush();
    assert_eq!(w.session.adjust.brush.armed, None);
    let at = [0.5, 0.5];
    assert!(!w
        .session
        .begin_stroke(place(at), screen(at), false, false, None));
    assert_eq!(w.brush().strokes.len(), 1, "nothing is painted under it");
}

#[test]
fn a_full_stroke_goes_on_in_a_new_one_and_a_full_brush_says_so() {
    let mut w = armed();
    w.session.adjust.brush.size = n(0.0004);
    // More places than one stroke holds, each past a quarter radius on.
    let frames = MAX_STROKE_POINTS + 50;
    let step = 0.00015;
    let start = [0.1, 0.5];
    assert!(w
        .session
        .begin_stroke(place(start), screen(start), false, false, None));
    for i in 1..=frames {
        let at = [0.1 + i as f32 * step, 0.5];
        w.move_to(at, 1e6);
        if i % 64 == 0 {
            w.drag_frame();
        }
    }
    w.session.end_stroke();
    w.settle();
    let strokes = &w.brush().strokes;
    assert_eq!(strokes.len(), 2, "the path goes on in a second stroke");
    assert_eq!(strokes[0].get().points.len(), MAX_STROKE_POINTS);
    assert_eq!(
        strokes[1].get().points[0],
        *strokes[0].get().points.last().expect("points")
    );
    assert_eq!(w.history.undo_steps(), 1, "and it is still one step");
    assert!(w.undo());
    assert!(w.brush().strokes.is_empty());

    // A brush that holds all it can refuses the press and says why.
    let dab = SharedStroke::new(&Stroke {
        points: vec![place([0.5, 0.5])],
        ..Stroke::default()
    });
    let MaskSource::Brush(full) = &mut w.session.edit.masks[0].components[0].source else {
        panic!("a brush");
    };
    full.strokes = vec![dab; MAX_STROKES];
    let at = [0.5, 0.5];
    assert!(!w
        .session
        .begin_stroke(place(at), screen(at), false, false, None));
    assert!(w
        .session
        .status
        .as_deref()
        .is_some_and(|s| s.contains("2000 strokes")));
}

#[test]
fn a_pen_stroke_goes_on_at_its_pressure() {
    let mut w = armed();
    let pressure = |count: i64| Some(Steps {
        count: Some(count),
        minus_zero: false,
    });
    let at = [0.2, 0.2];
    assert!(w
        .session
        .begin_stroke(place(at), screen(at), false, false, pressure(200)));
    w.session
        .extend_stroke(place([0.3, 0.2]), screen([0.3, 0.2]), true, pressure(900));
    w.session
        .extend_stroke(place([0.4, 0.2]), screen([0.4, 0.2]), false, pressure(950));
    w.session
        .extend_stroke(place([0.5, 0.2]), screen([0.5, 0.2]), true, None);
    let counts: Vec<Option<i64>> = w.brush().strokes[0]
        .get()
        .pressure
        .iter()
        .map(|p| p.count)
        .collect();
    assert_eq!(counts, [Some(200), Some(900), Some(900)]);
}

#[test]
fn the_moves_before_a_press_are_not_the_strokes() {
    let touch = |x: f32| Touchdown {
        at: place([x, 0.5]),
        screen: screen([x, 0.5]),
        pressure: None,
    };
    let xs = |list: Vec<Touchdown>| -> Vec<Option<i64>> {
        list.iter().map(|t| t.at.x.count).collect()
    };
    let moves = vec![touch(0.1), touch(0.2)];
    assert_eq!(
        xs(offered(true, moves.clone(), Some(touch(0.3)))),
        [Some(300_000)]
    );
    assert_eq!(
        xs(offered(false, moves, Some(touch(0.3)))),
        [Some(100_000), Some(200_000), Some(300_000)]
    );
}

#[test]
fn escape_ends_the_frame_of_the_brush_and_a_key_is_carried_out() {
    let mut w = armed();
    let keys = BrushKeys {
        a: true,
        ..BrushKeys::default()
    };
    assert!(w.session.brush_frame(keys, n(0.0)));
    assert!(w.session.adjust.brush.auto);
    let escape = BrushKeys {
        escape: true,
        ..BrushKeys::default()
    };
    assert!(!w.session.brush_frame(escape, n(0.0)));
    assert_eq!(w.session.adjust.brush.armed, None);
    assert!(!w.session.brush_frame(keys, n(0.0)), "no brush in the hand");
    assert!(w.session.adjust.brush.auto, "and A is nobody's");
}
