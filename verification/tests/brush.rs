use gamut::brush::{
    stored_point, stored_pressure, Brush, Place, SharedStroke, Steps, Stroke,
    DEFAULT_SENSITIVITY, MAX_BRUSH_SIZE, MAX_STROKES, MAX_STROKE_POINTS, MIN_FLOW, POSITION_REACH,
};
use gamut::num::Single;

fn n(value: f32) -> Single {
    Single::from_bits(value.to_bits())
}

/// A coordinate in millionths, or no place for one that is not finite.
fn c(value: f64) -> Steps {
    Steps {
        count: value.is_finite().then(|| (value * 1e6).round() as i64),
        minus_zero: false,
    }
}

fn at(x: f64, y: f64) -> Place {
    Place { x: c(x), y: c(y) }
}

/// A pressure in thousandths.
fn p(value: f64) -> Steps {
    Steps {
        count: value.is_finite().then(|| (value * 1000.0).round() as i64),
        minus_zero: false,
    }
}

fn stroke(points: &[[f64; 2]]) -> Stroke {
    Stroke {
        points: points.iter().map(|q| at(q[0], q[1])).collect(),
        size: n(0.02),
        feather: n(35.0),
        flow: n(60.0),
        ..Stroke::default()
    }
}

fn painted() -> Brush {
    Brush {
        strokes: vec![
            SharedStroke::new(&stroke(&[[0.1, 0.2], [0.15, 0.25], [0.3, 0.123457]])),
            SharedStroke::new(&Stroke {
                erase: true,
                ..stroke(&[[0.5, 0.5]])
            }),
        ],
    }
}

#[test]
fn sanitising_clamps_a_stroke_and_the_limits() {
    let wild = Stroke {
        points: vec![at(f64::NAN, 0.5), at(40.0, -40.0), at(0.123_456_8, 0.5)],
        size: n(9.0),
        feather: n(-5.0),
        flow: n(0.0),
        erase: true,
        ..Stroke::default()
    }
    .sanitised();
    let reach = POSITION_REACH as f64 / 1e6;
    assert_eq!(
        wild.points,
        [at(1.0 + reach, -reach), at(0.123_457, 0.5)]
    );
    assert_eq!(wild.size.bits, MAX_BRUSH_SIZE);
    assert_eq!(wild.feather, n(0.0));
    assert_eq!(wild.flow.bits, MIN_FLOW);
    assert!(wild.erase);
    let unreal = Stroke {
        size: n(f32::NAN),
        feather: n(f32::INFINITY),
        flow: n(f32::NAN),
        ..Stroke::default()
    }
    .sanitised();
    assert_eq!(unreal, Stroke::default());

    let long = SharedStroke::new(&stroke(&vec![[0.5, 0.5]; MAX_STROKE_POINTS + 10]));
    assert_eq!(long.get().points.len(), MAX_STROKE_POINTS);
    let mut full = long.clone();
    assert!(!full.push(at(0.1, 0.1), None), "a full stroke takes no point");
    assert!(full.shares_with(&long), "and is not copied for it");

    let many = Brush {
        strokes: vec![SharedStroke::new(&stroke(&[[0.5, 0.5]])); MAX_STROKES + 5],
    };
    assert!(!many.has_room());
    assert_eq!(many.sanitised().strokes.len(), MAX_STROKES);
}

#[test]
fn a_cloned_brush_shares_its_strokes() {
    let brush = painted();
    let clone = brush.clone();
    let sanitised = brush.sanitised();
    for (i, stroke) in brush.strokes.iter().enumerate() {
        assert!(stroke.shares_with(&clone.strokes[i]));
        assert!(stroke.shares_with(&sanitised.strokes[i]));
    }
}

#[test]
fn only_the_growing_stroke_is_copied_when_a_clone_holds_it() {
    let mut brush = painted();
    let held = brush.clone();
    assert!(brush.strokes[0].push(at(0.4, 0.4), None));
    assert!(!brush.strokes[0].shares_with(&held.strokes[0]));
    assert_eq!(
        held.strokes[0].get().points.len(),
        3,
        "the clone keeps its path"
    );
    assert!(brush.strokes[1].shares_with(&held.strokes[1]));
    assert_ne!(brush, held);
    assert_eq!(brush.strokes[0].grown_from(&held.strokes[0]), Some(1));
    assert_eq!(held.strokes[0].grown_from(&brush.strokes[0]), None);
    assert_eq!(brush.strokes[1].grown_from(&held.strokes[0]), None);
}

fn pen_stroke() -> Stroke {
    Stroke {
        pressure: vec![p(0.2), p(0.5), p(1.0)],
        auto: true,
        sensitivity: n(80.0),
        pressure_size: true,
        pressure_flow: true,
        ..stroke(&[[0.1, 0.2], [0.15, 0.25], [0.3, 0.4]])
    }
}

#[test]
fn sanitising_clamps_the_sensitivity_and_brings_the_pressure_to_the_points() {
    let wild = Stroke {
        sensitivity: n(400.0),
        pressure: vec![p(-1.0), p(f64::NAN), p(0.123_46), p(2.0), p(0.7)],
        ..pen_stroke()
    }
    .sanitised();
    assert_eq!(wild.sensitivity, n(100.0));
    assert_eq!(
        wild.pressure,
        [p(0.0), p(1.0), p(0.123)],
        "cut to the three points"
    );

    let short = Stroke {
        pressure: vec![p(0.4)],
        sensitivity: n(f32::NAN),
        ..pen_stroke()
    }
    .sanitised();
    assert_eq!(
        short.pressure,
        [p(0.4), p(0.4), p(0.4)],
        "filled with its last value"
    );
    assert_eq!(short.sensitivity.bits, DEFAULT_SENSITIVITY);

    let dropped = Stroke {
        points: vec![at(0.1, 0.1), at(f64::NAN, 0.5), at(0.3, 0.3)],
        pressure: vec![p(0.1), p(0.2), p(0.3)],
        ..pen_stroke()
    }
    .sanitised();
    assert_eq!(
        dropped.pressure,
        [p(0.1), p(0.3)],
        "a dropped point takes its pressure"
    );

    let plain = Stroke {
        auto: false,
        sensitivity: n(80.0),
        ..pen_stroke()
    }
    .sanitised();
    assert_eq!(
        plain.sensitivity.bits, DEFAULT_SENSITIVITY,
        "a stroke that is not auto holds no sensitivity"
    );
}

#[test]
fn a_stroke_grown_from_another_has_the_same_new_fields() {
    let earlier = SharedStroke::new(&pen_stroke());
    let mut grown = earlier.clone();
    assert!(grown.push(at(0.4, 0.5), Some(p(0.9))));
    assert_eq!(grown.grown_from(&earlier), Some(1));
    let changes: [fn(&mut Stroke); 5] = [
        |s| s.auto = false,
        |s| s.sensitivity = n(20.0),
        |s| s.pressure_size = false,
        |s| s.pressure_flow = false,
        |s| s.pressure[1] = p(0.6),
    ];
    for change in changes {
        let mut other = grown.get().clone();
        change(&mut other);
        assert_eq!(SharedStroke::new(&other).grown_from(&earlier), None);
    }
}

#[test]
fn push_takes_a_pressure_with_a_point() {
    let mut mouse = SharedStroke::new(&stroke(&[[0.1, 0.1]]));
    assert!(mouse.push(at(0.2, 0.2), None));
    assert!(mouse.get().pressure.is_empty(), "a mouse stores no pressure");

    let mut pen = SharedStroke::new(&stroke(&[]));
    assert!(pen.push(at(0.1, 0.1), Some(p(0.25))));
    assert!(pen.push(at(0.2, 0.2), Some(p(0.123_46))));
    assert!(pen.push(at(0.3, 0.3), None));
    assert_eq!(
        pen.get().pressure,
        [p(0.25), p(0.123), p(0.123)],
        "none goes on at the last"
    );
    assert!(!pen.push(at(f64::NAN, 0.3), Some(p(0.5))));
    assert_eq!(pen.get().pressure.len(), pen.get().points.len());

    let earlier = mouse.clone();
    assert!(mouse.push(at(0.3, 0.3), Some(p(0.5))));
    assert_eq!(
        mouse.get().pressure,
        [p(1.0), p(1.0), p(0.5)],
        "the points before a pen are at 1"
    );
    assert_eq!(mouse.grown_from(&earlier), Some(1));
}

#[test]
fn a_line_continues_from_the_end_of_the_last_stroke() {
    assert_eq!(Brush::default().last_point(), None);
    assert_eq!(painted().last_point(), Some(at(0.5, 0.5)));
    let mut brush = painted();
    brush.strokes.push(SharedStroke::new(&stroke(&[])));
    assert_eq!(
        brush.last_point(),
        Some(at(0.5, 0.5)),
        "an empty stroke ends nowhere"
    );
}

#[test]
fn a_stroke_without_a_pen_is_at_full_pressure() {
    let plain = stroke(&[[0.5, 0.5], [0.6, 0.6]]);
    assert_eq!(plain.pressure_at(1), p(1.0), "no pressure is a full one");
    assert!(!plain.uses_pressure());
    assert!(pen_stroke().uses_pressure());
    let flags_off = Stroke {
        pressure_size: false,
        pressure_flow: false,
        ..pen_stroke()
    };
    assert!(!flags_off.uses_pressure());
}

#[test]
fn a_stored_number_is_held_and_a_lost_one_is_told() {
    assert_eq!(stored_pressure(p(1.7)), p(1.0));
    assert_eq!(stored_pressure(p(-0.2)), p(0.0));
    assert_eq!(stored_pressure(p(f64::NAN)), p(1.0));
    assert_eq!(stored_point(at(0.25, f64::INFINITY)), None);
    assert_eq!(stored_point(at(0.25, 0.75)), Some(at(0.25, 0.75)));
}

#[test]
fn sanitising_a_stroke_twice_changes_nothing() {
    let once = Stroke {
        points: vec![at(9.0, 0.5), at(0.1, 0.2)],
        pressure: vec![p(0.3)],
        size: n(-1.0),
        ..pen_stroke()
    }
    .sanitised();
    assert_eq!(once.sanitised(), once);
}
