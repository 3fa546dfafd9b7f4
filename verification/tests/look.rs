use gamut::look::{hsl_name, Curve, CurvePoint, Look, MAX_POINTS};
use gamut::num::Single;

fn n(value: f32) -> Single {
    Single::from_bits(value.to_bits())
}

fn curve(points: &[[f32; 2]]) -> Curve {
    Curve {
        points: points
            .iter()
            .map(|p| CurvePoint {
                x: n(p[0]),
                y: n(p[1]),
            })
            .collect(),
    }
}

fn assert_points(got: &Curve, want: &[[f32; 2]]) {
    assert_eq!(got.points, curve(want).points);
}

#[test]
fn the_default_look_is_the_identity() {
    assert!(Look::default().is_identity());
    assert_points(&Curve::default(), &[[0.0, 0.0], [1.0, 1.0]]);
}

#[test]
fn sanitising_sorts_clamps_and_drops_repeats() {
    let wild = curve(&[
        [1.0, 1.2],
        [0.5, 0.6],
        [f32::NAN, 0.3],
        [0.5, 0.1],
        [-0.2, 0.0],
    ]);
    assert_points(&wild.sanitised(), &[[0.0, 0.0], [0.5, 0.6], [1.0, 1.0]]);
}

#[test]
fn sanitising_keeps_between_two_and_sixteen_points() {
    let short = curve(&[[0.3, 0.9]]);
    assert_eq!(short.sanitised(), Curve::default());

    let many: Vec<[f32; 2]> = (0..40)
        .map(|i| [i as f32 / 39.0, i as f32 / 39.0])
        .collect();
    let kept = curve(&many).sanitised().points;
    assert_eq!(kept.len(), MAX_POINTS);
    assert!(kept[0] == curve(&[[0.0, 0.0]]).points[0]);
    assert!(kept[MAX_POINTS - 1] == curve(&[[1.0, 1.0]]).points[0]);
}

#[test]
fn sanitising_twice_is_sanitising_once() {
    let wild = curve(&[[0.9, -3.0], [0.2, 0.4], [0.2, 0.7], [f32::INFINITY, 0.0]]);
    let once = wild.sanitised();
    assert_eq!(once.sanitised(), once);
    assert_points(&once, &[[0.2, 0.4], [0.9, 0.0]]);
}

#[test]
fn a_moved_wheel_or_range_is_no_identity() {
    let mut look = Look::default();
    look.hsl[1].saturation = n(-60.0);
    assert!(!look.is_identity() && !look.hsl_is_identity());
    let mut look = Look::default();
    look.wheels.shadows.x = n(0.3);
    assert!(!look.is_identity() && look.hsl_is_identity());
    assert_ne!(hsl_name(0), hsl_name(7));
}

#[test]
fn sanitising_keeps_the_least_and_the_greatest_x() {
    let long: Vec<[f32; 2]> = (0..40).map(|i| [(39 - i) as f32 / 50.0, 0.5]).collect();
    let points = curve(&long).sanitised().points;
    assert_eq!(points[0].x, n(0.0));
    assert_eq!(points[points.len() - 1].x, n(39.0 / 50.0));
    // Points that all clamp to one end leave no curve.
    assert_eq!(curve(&[[2.0, 0.1], [3.0, 0.2]]).sanitised(), Curve::default());
    assert_eq!(curve(&[[f32::NAN, 0.1], [0.5, 0.2]]).sanitised(), Curve::default());
}
