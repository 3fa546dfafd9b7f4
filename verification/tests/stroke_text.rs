use gamut::brush::{Place, SharedStroke, Steps, Stroke};
use gamut::num::Single;
use gamut::stroke_text::{
    is_default_sensitivity, is_false, points_error, pressure_error, read_number, read_points,
    read_pressures, split_points, split_words, write_number, write_points, write_pressures,
};

fn steps(count: i64) -> Steps {
    Steps {
        count: Some(count),
        minus_zero: false,
    }
}

fn at(x: i64, y: i64) -> Place {
    Place {
        x: steps(x),
        y: steps(y),
    }
}

#[test]
fn the_points_of_a_stroke_are_one_string() {
    let points = vec![
        at(100_000, 200_000),
        at(150_000, 250_000),
        at(300_000, 123_457),
    ];
    assert_eq!(write_points(&points), "0.1,0.2 0.15,0.25 0.3,0.123457");
    assert_eq!(write_points(&vec![]), "");
    assert_eq!(write_points(&vec![at(-1, 5_000_000)]), "-0.000001,5");
}

#[test]
fn points_that_are_not_pairs_are_an_error() {
    for bad in ["0.5", "0.5,0.5,0.5 1", "a,b", "0.5;0.5"] {
        assert!(read_points(bad).is_none(), "{bad}");
        let parsed = split_points(bad).and_then(|pairs| {
            pairs
                .iter()
                .map(|(x, y)| Some((x.parse::<f32>().ok()?, y.parse::<f32>().ok()?)))
                .collect::<Option<Vec<(f32, f32)>>>()
        });
        assert_eq!(parsed, None, "{bad}");
    }
    assert_eq!(read_points(""), Some(vec![]));
    assert!(points_error().contains("pairs"));
}

#[test]
fn a_stored_point_survives_the_file_exactly() {
    let mut growing = SharedStroke::new(&Stroke::default());
    for i in 0..500 {
        let t = i as f64 / 499.0;
        let (x, y) = (t * 1.3 - 0.1, (t * 37.0).sin() * 0.5 + 0.5);
        assert!(growing.push(at((x * 1e6).round() as i64, (y * 1e6).round() as i64), None));
    }
    let text = write_points(&growing.get().points);
    let back = read_points(&text).expect("read");
    assert_eq!(back, growing.get().points);
    assert_eq!(write_points(&back), text);
    // The text is what the number itself would print as.
    for point in &back {
        let value = point.x.count.expect("a count") as f64 / 1e6;
        let short = (value as f32).to_string();
        assert!(text.contains(&short), "{short}");
    }
}

#[test]
fn the_pressures_of_a_stroke_are_one_string() {
    let pressures = vec![steps(200), steps(500), steps(1000), steps(123)];
    let text = write_pressures(&pressures);
    assert_eq!(text, "0.2 0.5 1 0.123");
    assert_eq!(read_pressures(&text), Some(pressures));
    assert_eq!(read_pressures("0.5 x"), None);
    assert!(pressure_error().contains("numbers"));
}

#[test]
fn a_number_is_written_short_and_read_back() {
    for count in [0, 1, -1, 10, 999_999, 1_000_000, -4_000_000, 123_456_789] {
        let text = write_number(count, false, 6);
        assert_eq!(read_number(&text, 6), Some(steps(count)), "{text}");
    }
    assert_eq!(write_number(0, false, 6), "0");
    assert_eq!(write_number(1_500_000, false, 6), "1.5");
    assert_eq!(write_number(-20, false, 6), "-0.00002");
    assert_eq!(read_number("0.50", 6), Some(steps(500_000)));
    for other in ["", "-", ".5", "5.", "1e3", "+1", "0.1234567", "1.2.3", "12345678901"] {
        assert_eq!(read_number(other, 6), None, "{other}");
    }
}

#[test]
fn words_are_apart_by_any_white_space() {
    assert_eq!(split_words(" a  bc\td\n"), ["a", "bc", "d"]);
    assert_eq!(
        split_points("1e-3,2 .5,inf"),
        Some(vec![
            ("1e-3".to_string(), "2".to_string()),
            (".5".to_string(), "inf".to_string())
        ])
    );
}

#[test]
fn what_is_at_its_default_is_not_written() {
    assert!(is_false(&false) && !is_false(&true));
    assert!(is_default_sensitivity(&Single::from_bits(50f32.to_bits())));
    assert!(!is_default_sensitivity(&Single::from_bits(80f32.to_bits())));
}

#[test]
fn the_zero_below_keeps_its_sign_in_the_file() {
    let below = Steps {
        count: Some(0),
        minus_zero: true,
    };
    let points = vec![Place {
        x: below,
        y: steps(0),
    }];
    // A number just under 0 rounds to -0 and prints as it.
    let rounded = ((-1e-8f64 * 1e6).round() / 1e6) as f32;
    assert_eq!(write_points(&points), format!("{rounded},{}", 0.0f32));
    assert_eq!(write_points(&points), "-0,0");
    let back = read_points("-0,0").expect("read");
    assert!(back[0].x.minus_zero && !back[0].y.minus_zero);
    assert_eq!(back, vec![at(0, 0)], "it equals 0");
    assert_eq!(write_points(&back), "-0,0");
    // It stays through a stroke, and a number below 0 is no zero.
    let mut stroke = SharedStroke::new(&Stroke::default());
    assert!(stroke.push(points[0], Some(below)));
    assert_eq!(write_points(&stroke.get().points), "-0,0");
    assert_eq!(write_pressures(&stroke.get().pressure), "-0");
    assert_eq!(write_number(-5, true, 6), "-0.000005");
    assert!(!read_number("-5", 6).expect("read").minus_zero);
}
