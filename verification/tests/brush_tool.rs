use gamut::brush::{Brush, Place, SharedStroke, Steps, Stroke, MAX_BRUSH_SIZE, MIN_BRUSH_SIZE, MIN_FLOW};
use gamut::brush_tool::{
    brush_key, erases, frame_input, pressed_points, stroke_ends, BrushKey, BrushKeys, BrushTool,
    Event, FrameInput, Spot, TouchPhase, TouchState,
};
use gamut::num::Single;

fn n(value: f32) -> Single {
    Single::from_bits(value.to_bits())
}

/// A pressure in its stored steps.
fn p(pressure: f32) -> Steps {
    Steps {
        count: Some((pressure * 1000.0).round() as i64),
        minus_zero: false,
    }
}

fn place(x: f64, y: f64) -> Place {
    let steps = |v: f64| Steps {
        count: Some((v * 1e6).round() as i64),
        minus_zero: false,
    };
    Place {
        x: steps(x),
        y: steps(y),
    }
}

#[test]
fn shift_draws_a_line_from_the_end_of_the_last_stroke() {
    let mut brush = Brush::default();
    let at = place(0.5, 0.5);
    assert_eq!(pressed_points(&brush, at, false), [at]);
    assert_eq!(
        pressed_points(&brush, at, true),
        [at],
        "nothing to draw a line from"
    );
    brush.strokes.push(SharedStroke::new(&Stroke {
        points: vec![place(0.1, 0.1), place(0.2, 0.3)],
        ..Stroke::default()
    }));
    assert_eq!(pressed_points(&brush, at, false), [at]);
    assert_eq!(pressed_points(&brush, at, true), [place(0.2, 0.3), at]);
}

fn armed() -> BrushKeys {
    BrushKeys {
        armed: true,
        ..BrushKeys::default()
    }
}

#[test]
fn the_brush_keys_resize_soften_toggle_and_put_down() {
    let key = |keys: BrushKeys| brush_key(keys);
    assert_eq!(
        key(BrushKeys {
            open: true,
            ..armed()
        }),
        Some(BrushKey::Smaller)
    );
    assert_eq!(
        key(BrushKeys {
            close: true,
            ..armed()
        }),
        Some(BrushKey::Larger)
    );
    let shift = BrushKeys {
        shift: true,
        ..armed()
    };
    assert_eq!(
        key(BrushKeys {
            open: true,
            ..shift
        }),
        Some(BrushKey::LessFeather)
    );
    assert_eq!(
        key(BrushKeys {
            close: true,
            ..shift
        }),
        Some(BrushKey::MoreFeather)
    );
    // A keyboard that reports the shifted character.
    assert_eq!(
        key(BrushKeys {
            open_curly: true,
            ..shift
        }),
        Some(BrushKey::LessFeather)
    );
    assert_eq!(
        key(BrushKeys {
            close_curly: true,
            ..shift
        }),
        Some(BrushKey::MoreFeather)
    );
    assert_eq!(
        key(BrushKeys { o: true, ..armed() }),
        Some(BrushKey::ToggleOverlay)
    );
    assert_eq!(
        key(BrushKeys { a: true, ..armed() }),
        Some(BrushKey::ToggleAuto)
    );
    assert_eq!(
        key(BrushKeys { a: true, ..shift }),
        None,
        "Shift+A is not the brush's"
    );
    assert_eq!(
        key(BrushKeys {
            escape: true,
            ..armed()
        }),
        Some(BrushKey::PutDown)
    );
    assert_eq!(key(armed()), None);
}

#[test]
fn the_brush_keys_are_silent_while_typing_and_with_no_brush_armed() {
    let every = BrushKeys {
        open: true,
        close: true,
        open_curly: true,
        close_curly: true,
        o: true,
        a: true,
        escape: true,
        ..BrushKeys::default()
    };
    assert_eq!(brush_key(every), None, "no brush is armed");
    assert_eq!(
        brush_key(BrushKeys {
            armed: true,
            typing: true,
            ..every
        }),
        None
    );
    // Ctrl+O opens a file and Ctrl+[ is nobody's: neither is the brush's.
    let held = BrushKeys {
        armed: true,
        other_modifier: true,
        ..BrushKeys::default()
    };
    assert_eq!(brush_key(BrushKeys { o: true, ..held }), None);
    // Ctrl+A selects all in a text field.
    assert_eq!(brush_key(BrushKeys { a: true, ..held }), None);
    assert_eq!(brush_key(BrushKeys { open: true, ..held }), None);
    assert_eq!(
        brush_key(BrushKeys {
            escape: true,
            ..held
        }),
        Some(BrushKey::PutDown)
    );
}

#[test]
fn a_press_stores_the_settings_of_the_tool_in_the_stroke() {
    let tool = BrushTool::default();
    assert!(!tool.auto && !tool.pressure_size, "off until asked for");
    assert!(
        tool.pressure_flow,
        "a pen paints lighter with a lighter hand"
    );
    let plain = tool.stroke(vec![place(0.5, 0.5)], false, None);
    assert!(!plain.auto && plain.pressure.is_empty());
    assert!(plain.pressure_flow && !plain.pressure_size);

    let tool = BrushTool {
        auto: true,
        sensitivity: n(80.0),
        pressure_size: true,
        pressure_flow: false,
        ..BrushTool::default()
    };
    let line = tool.stroke(
        vec![place(0.1, 0.1), place(0.5, 0.5)],
        true,
        Some(p(0.4)),
    );
    assert!(line.auto && line.erase);
    assert_eq!(line.sensitivity, n(80.0));
    assert!(line.pressure_size && !line.pressure_flow);
    assert_eq!(
        line.pressure,
        [p(0.4), p(0.4)],
        "a Shift line is at the pressure of the press"
    );
    assert_eq!(
        SharedStroke::new(&line).get().pressure.len(),
        line.points.len()
    );
}

fn touch(id: u64, phase: TouchPhase, force: Option<Steps>) -> Event {
    Event::Touch { id, phase, force }
}

fn press(pressed: bool) -> Event {
    Event::PointerButton { pressed }
}

fn spot(x: f32, y: f32) -> Spot {
    Spot { x: n(x), y: n(y) }
}

fn assert_moves(input: &FrameInput, want: &[(Spot, Option<Steps>)]) {
    assert_eq!(input.moves, want);
}

#[test]
fn a_point_takes_the_force_of_a_pen_and_none_from_a_finger_or_a_mouse() {
    let (a, b, c) = (spot(10.0, 10.0), spot(20.0, 10.0), spot(30.0, 10.0));

    // A pen: the touch first, then the pointer.
    let mut pen = TouchState::default();
    let down = frame_input(
        &[touch(7, TouchPhase::Start, Some(p(0.2))), Event::PointerMoved(a), press(true)],
        &mut pen,
    );
    assert_moves(&down, &[(a, Some(p(0.2)))]);
    assert_eq!(down.pressure, Some(p(0.2)));
    let moved = frame_input(
        &[
            touch(7, TouchPhase::Move, Some(p(0.5))),
            Event::PointerMoved(b),
            touch(7, TouchPhase::Move, Some(p(0.9))),
            Event::PointerMoved(c),
        ],
        &mut pen,
    );
    // Each move its own force.
    assert_moves(&moved, &[(b, Some(p(0.5))), (c, Some(p(0.9)))]);
    // A pen that reports no force for a moment keeps the last one.
    let held = frame_input(&[touch(7, TouchPhase::Move, None), Event::PointerMoved(c)], &mut pen);
    assert_moves(&held, &[(c, Some(p(0.9)))]);
    let up = frame_input(&[touch(7, TouchPhase::End, None), press(false)], &mut pen);
    assert_eq!(up.pressure, None, "lifted");
    assert_eq!(pen, TouchState::default());

    // A finger reports no force.
    let mut finger = TouchState::default();
    let down = frame_input(
        &[touch(3, TouchPhase::Start, None), Event::PointerMoved(a), press(true)],
        &mut finger,
    );
    assert_moves(&down, &[(a, None)]);
    assert_eq!(down.pressure, None);

    // A mouse sends no touch at all, and a press of its own drops a touch
    // whose end never came.
    let mut stale = TouchState::default();
    frame_input(&[touch(7, TouchPhase::Start, Some(p(0.3)))], &mut stale);
    let mouse = frame_input(&[Event::PointerMoved(b), press(true), Event::PointerMoved(c)], &mut stale);
    assert_moves(&mouse, &[(b, Some(p(0.3))), (c, None)]);
    assert_eq!(mouse.pressure, None);
}

#[test]
fn a_second_touch_is_told_from_the_one_that_paints() {
    let mut state = TouchState::default();
    assert!(!frame_input(&[touch(1, TouchPhase::Start, None)], &mut state).second_touch);
    assert!(!frame_input(&[touch(1, TouchPhase::Move, None)], &mut state).second_touch);
    assert!(frame_input(&[touch(2, TouchPhase::Start, None)], &mut state).second_touch);
    // The second finger moving or lifting changes nothing of the first.
    let before = state;
    frame_input(
        &[touch(2, TouchPhase::Move, Some(p(0.5))), touch(2, TouchPhase::Cancel, None)],
        &mut state,
    );
    assert_eq!(state, before);
    frame_input(&[touch(1, TouchPhase::Cancel, None)], &mut state);
    assert_eq!(state, TouchState::default());
}

#[test]
fn the_keys_hold_the_size_and_the_feather_inside_their_ranges() {
    const SIZE_STEP: f32 = 1.1;
    const FEATHER_STEP: f32 = 5.0;
    let value = |s: Single| f32::from_bits(s.bits);
    let mut tool = BrushTool::default();
    let start = value(tool.size);
    tool.resize(n(value(tool.size) * SIZE_STEP));
    assert!((value(tool.size) - start * 1.1).abs() < 1e-6);
    tool.resize(n(value(tool.size) * (1.0 / SIZE_STEP)));
    assert!((value(tool.size) - start).abs() < 1e-6);
    for _ in 0..200 {
        tool.resize(n(value(tool.size) * SIZE_STEP));
        tool.soften(n(value(tool.feather) + FEATHER_STEP));
    }
    assert_eq!(
        (tool.size.bits, value(tool.feather)),
        (MAX_BRUSH_SIZE, 100.0)
    );
    for _ in 0..400 {
        tool.resize(n(value(tool.size) * (1.0 / SIZE_STEP)));
        tool.soften(n(value(tool.feather) - FEATHER_STEP));
    }
    assert_eq!((tool.size.bits, value(tool.feather)), (MIN_BRUSH_SIZE, 0.0));
    tool.set_flow(n(0.0));
    assert_eq!(tool.flow.bits, MIN_FLOW);
    assert_eq!(value(Single::from_bits(MIN_BRUSH_SIZE)), 0.0002);
    assert_eq!(value(Single::from_bits(MAX_BRUSH_SIZE)), 0.5);
}

#[test]
fn alt_erases_as_the_toggle_does_and_a_second_touch_ends_a_stroke() {
    assert!(!erases(false, false));
    assert!(erases(true, false) && erases(false, true) && erases(true, true));
    assert!(!stroke_ends(true, false));
    assert!(stroke_ends(false, false) && stroke_ends(true, true) && stroke_ends(false, true));
}
