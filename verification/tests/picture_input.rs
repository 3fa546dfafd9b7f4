//! The pointer on the picture with a brush in the hand, frame by frame the way
//! the window reads it.

use gamut::brush::{Brush, Place, Steps};
use gamut::brush_tool::{
    erases, frame_input, stroke_ends, BrushKeys, Event, Spot, TouchPhase,
};
use gamut::mask::{Mask, MaskSource};
use gamut::num::Single;
use gamut::session::{offered, Session, Touchdown};

/// The fitted photo fills the tab.
const TAB: [f32; 2] = [1200.0, 800.0];

fn n(value: f32) -> Single {
    Single::from_bits(value.to_bits())
}

fn value(number: Single) -> f32 {
    f32::from_bits(number.bits)
}

fn spot(at: [f32; 2]) -> Spot {
    Spot {
        x: n(at[0]),
        y: n(at[1]),
    }
}

fn place(at: Spot) -> Place {
    let steps = |v: f32| Steps {
        count: Some((f64::from(v) * 1e6).round() as i64),
        minus_zero: false,
    };
    Place {
        x: steps(value(at.x) / TAB[0]),
        y: steps(value(at.y) / TAB[1]),
    }
}

fn pressure(force: f32) -> Steps {
    Steps {
        count: Some((force * 1000.0).round() as i64),
        minus_zero: false,
    }
}

/// The window as far as the brush sees it.
struct Window {
    session: Session,
    pointer: Option<Spot>,
    down: bool,
}

impl Window {
    fn with_a_brush_in_the_hand() -> Window {
        let mut session = Session::default();
        session
            .edit
            .masks
            .push(Mask::new("Brush", MaskSource::Brush(Brush::default())));
        session.adjust.select_mask(Some(0));
        session.toggle_brush(0);
        Window {
            session,
            pointer: None,
            down: false,
        }
    }

    fn brush(&self) -> &Brush {
        match &self.session.edit.masks[0].components[0].source {
            MaskSource::Brush(brush) => brush,
            _ => panic!("a brush"),
        }
    }

    fn frame(&mut self, events: Vec<Event>) {
        self.frame_with(events, BrushKeys::default());
    }

    fn frame_with(&mut self, events: Vec<Event>, keys: BrushKeys) {
        let mut started = false;
        for event in &events {
            match event {
                Event::PointerMoved(at) => self.pointer = Some(*at),
                Event::PointerButton { pressed } => {
                    started = *pressed;
                    self.down = *pressed;
                }
                _ => {}
            }
        }
        let session = &mut self.session;
        if !session.brush_frame(keys, n(0.0)) {
            return;
        }
        let mut touch = session.adjust.brush.touch;
        let input = frame_input(&events, &mut touch);
        session.adjust.brush.touch = touch;
        if let (true, Some(origin)) = (started, self.pointer) {
            let erase = erases(session.adjust.brush.erase, false);
            session.begin_stroke(place(origin), origin, erase, false, input.pressure);
        }
        if session.adjust.brush.is_painting() {
            let touchdown = |at: Spot, pressure| Touchdown {
                at: place(at),
                screen: at,
                pressure,
            };
            let moves = input
                .moves
                .iter()
                .map(|(at, force)| touchdown(*at, *force))
                .collect();
            let now = self.pointer.map(|at| touchdown(at, input.pressure));
            let radius = value(session.adjust.brush.size) * TAB[0];
            for down in offered(started, moves, now) {
                let due = session.adjust.brush.growing.is_some_and(|from| {
                    let dx = value(down.screen.x) - value(from.x);
                    let dy = value(down.screen.y) - value(from.y);
                    dx.hypot(dy) >= (radius * 0.25).max(1.0)
                });
                session.extend_stroke(down.at, down.screen, due, down.pressure);
            }
            if stroke_ends(self.down, input.second_touch) {
                session.end_stroke();
            }
        }
    }

    /// Presses at `from`, moves to `to` over ten frames and lets go.
    fn drag(&mut self, from: [f32; 2], to: [f32; 2]) {
        self.frame(vec![Event::PointerMoved(spot(from))]);
        self.frame(vec![Event::PointerButton { pressed: true }]);
        for step in 1..=10 {
            self.frame(vec![Event::PointerMoved(along(from, to, step))]);
        }
        self.frame(vec![Event::PointerButton { pressed: false }]);
        self.frame(Vec::new());
    }

    /// A touch from `from` to `to` over ten frames: the touch with its force
    /// first, then the pointer it stands in for.
    fn touch_drag(&mut self, from: [f32; 2], to: [f32; 2], force: &dyn Fn(usize) -> Option<f32>) {
        self.frame(vec![
            touch(1, TouchPhase::Start, force(0)),
            Event::PointerMoved(spot(from)),
            Event::PointerButton { pressed: true },
        ]);
        for step in 1..=10 {
            self.frame(vec![
                touch(1, TouchPhase::Move, force(step)),
                Event::PointerMoved(along(from, to, step)),
            ]);
        }
        self.frame(vec![
            touch(1, TouchPhase::End, None),
            Event::PointerButton { pressed: false },
            Event::Other,
        ]);
        self.frame(Vec::new());
    }
}

fn along(from: [f32; 2], to: [f32; 2], step: usize) -> Spot {
    let t = step as f32 / 10.0;
    spot([
        from[0] + (to[0] - from[0]) * t,
        from[1] + (to[1] - from[1]) * t,
    ])
}

fn touch(id: u64, phase: TouchPhase, force: Option<f32>) -> Event {
    Event::Touch {
        id,
        phase,
        force: force.map(pressure),
    }
}

const FROM: [f32; 2] = [300.0, 400.0];
const TO: [f32; 2] = [800.0, 450.0];

#[test]
fn a_pen_stroke_stores_each_point_once_with_its_pressure() {
    let mut w = Window::with_a_brush_in_the_hand();
    w.session.adjust.brush.pressure_size = true;
    w.touch_drag(FROM, TO, &|step| Some(0.2 + 0.07 * step as f32));

    assert_eq!(w.brush().strokes.len(), 1, "one touch, one stroke");
    let stroke = w.brush().strokes[0].get();
    assert_eq!(stroke.points.len(), 11, "the press and ten moves, each once");
    assert_eq!(stroke.pressure.len(), stroke.points.len());
    for pair in stroke.points.windows(2) {
        assert!(pair[1].x.count > pair[0].x.count, "no point twice: {pair:?}");
    }
    assert_eq!(stroke.pressure[0], pressure(0.2));
    assert_eq!(stroke.pressure[10], pressure(0.9));
    assert!(stroke
        .pressure
        .windows(2)
        .all(|pair| pair[1].count > pair[0].count));
    assert!(
        stroke.pressure_size && stroke.pressure_flow,
        "the toggles at the press"
    );
    assert!(!w.session.adjust.brush.is_painting(), "the lift ends it");
}

#[test]
fn a_mouse_and_a_finger_store_no_pressure() {
    let mut w = Window::with_a_brush_in_the_hand();
    w.drag(FROM, TO);
    w.touch_drag(FROM, TO, &|_| None);
    assert_eq!(w.brush().strokes.len(), 2);
    for stroke in &w.brush().strokes {
        assert!(stroke.get().points.len() >= 3);
        assert!(
            stroke.get().pressure.is_empty(),
            "full pressure, and nothing in the file"
        );
        assert!(!stroke.get().uses_pressure());
    }
    // A finger paints where a mouse does.
    let strokes = &w.brush().strokes;
    assert_eq!(strokes[0].get().points[0], strokes[1].get().points[0]);

    // A mouse after a pen: the pen's force is not the mouse's.
    w.touch_drag(FROM, TO, &|_| Some(0.3));
    w.drag(FROM, TO);
    assert!(!w.brush().strokes[2].get().pressure.is_empty());
    assert!(w.brush().strokes[3].get().pressure.is_empty());
}

#[test]
fn a_second_touch_ends_the_stroke_where_it_is() {
    let mut w = Window::with_a_brush_in_the_hand();
    let at = |step: f32| spot([300.0 + 40.0 * step, 400.0]);
    w.frame(vec![
        touch(1, TouchPhase::Start, None),
        Event::PointerMoved(at(0.0)),
        Event::PointerButton { pressed: true },
    ]);
    for step in 1..=3 {
        w.frame(vec![
            touch(1, TouchPhase::Move, None),
            Event::PointerMoved(at(step as f32)),
        ]);
    }
    assert!(w.session.adjust.brush.is_painting());
    let held = w.brush().strokes[0].get().points.len();
    assert!(held >= 3);

    w.frame(vec![touch(2, TouchPhase::Start, None)]);
    assert!(
        !w.session.adjust.brush.is_painting(),
        "the second finger ends it"
    );
    for step in 4..=8 {
        w.frame(vec![
            touch(1, TouchPhase::Move, None),
            Event::PointerMoved(at(step as f32)),
            touch(2, TouchPhase::Move, None),
        ]);
    }
    w.frame(vec![
        touch(2, TouchPhase::End, None),
        touch(1, TouchPhase::End, None),
        Event::PointerButton { pressed: false },
        Event::Other,
    ]);
    assert_eq!(w.brush().strokes.len(), 1, "and starts no other");
    assert_eq!(
        w.brush().strokes[0].get().points.len(),
        held,
        "nothing more is taken"
    );
}

#[test]
fn the_a_key_makes_the_next_stroke_an_auto_stroke_and_leaves_the_last_alone() {
    let a = BrushKeys {
        a: true,
        ..BrushKeys::default()
    };
    let mut w = Window::with_a_brush_in_the_hand();
    w.drag(FROM, TO);
    assert!(!w.brush().strokes[0].get().auto);

    w.session.adjust.brush.sensitivity = n(80.0);
    w.frame_with(Vec::new(), a);
    assert!(w.session.adjust.brush.auto, "A ticks Auto mask");
    assert!(
        !w.brush().strokes[0].get().auto,
        "the last stroke is left alone"
    );
    w.drag(FROM, TO);
    assert!(w.brush().strokes[1].get().auto);
    assert_eq!(w.brush().strokes[1].get().sensitivity, n(80.0));
    assert!(!w.brush().strokes[0].get().auto);

    w.frame_with(Vec::new(), a);
    assert!(!w.session.adjust.brush.auto, "and A again unticks it");
    // With no brush in the hand A is nobody's.
    w.session.put_brush_down();
    w.frame_with(Vec::new(), a);
    assert!(!w.session.adjust.brush.auto);
}

#[test]
fn with_the_prompt_up_nothing_paints() {
    let mut w = Window::with_a_brush_in_the_hand();
    w.session.adjust.brush.auto = true;
    w.session.adjust.pending_switch = Some("Teal".to_string());
    w.drag(FROM, TO);
    w.touch_drag(FROM, TO, &|_| Some(0.5));
    assert!(w.brush().strokes.is_empty());
    assert_eq!(
        w.session.adjust.brush.armed, None,
        "the brush was put down"
    );
}
