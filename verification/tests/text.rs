use gamut::mask::{active_masks, free_name, LuminanceRange, Mask, MaskOp, MaskSource};
use gamut::edit::{Adjustments, PhotoEdit};
use gamut::num::Single;
use gamut::path::{beside, file_name, has_extension, is_absolute, parent, push};
use gamut::text::{join, same_ignoring_ascii_case, to_ascii_lowercase, trim, write_decimal};

fn n(value: f32) -> Single {
    Single::from_bits(value.to_bits())
}

#[test]
fn white_space_is_trimmed_by_the_rules_of_unicode() {
    for text in ["  a b ", "\u{2003}a b\u{a0}", "\ta b\r\n", "a b", "", " \u{3000} "] {
        assert_eq!(trim(text), text.trim(), "{text:?}");
    }
}

#[test]
fn numbers_and_cases_are_those_of_the_standard_library() {
    for value in [0u64, 7, 10, 65_536, u64::MAX] {
        assert_eq!(write_decimal(value), value.to_string());
    }
    for text in ["AbC \u{c4}", "4X5", ""] {
        assert_eq!(to_ascii_lowercase(text), text.to_ascii_lowercase());
    }
    let chars = |text: &str| text.chars().collect::<Vec<char>>();
    assert!(same_ignoring_ascii_case(&chars("Sky"), &chars("sKY")));
    assert!(!same_ignoring_ascii_case(&chars("Sky"), &chars("Skye")));
    let parts = vec!["a".to_string(), "b".to_string()];
    assert_eq!(join(&parts, ", "), "a, b");
}

#[test]
fn a_number_compares_as_the_float_it_stands_for() {
    let values = [
        f32::NEG_INFINITY,
        -2.5,
        -0.0,
        0.0,
        1e-40,
        1.0,
        3.5,
        f32::MAX,
        f32::INFINITY,
        f32::NAN,
    ];
    for a in values {
        assert_eq!(n(a).is_nan(), a.is_nan());
        assert_eq!(n(a).is_finite(), a.is_finite());
        for b in values {
            assert_eq!(n(a) == n(b), a == b, "{a} {b}");
            assert_eq!(n(a).is_below(n(b)), a < b, "{a} {b}");
            assert_eq!(n(a).is_at_most(n(b)), a <= b, "{a} {b}");
            assert_eq!(n(a).precedes(n(b)), a.total_cmp(&b).is_lt(), "{a} {b}");
        }
        if !a.is_nan() {
            let held = f32::from_bits(n(a).clamped(n(-1.0), n(2.0)).bits);
            assert_eq!(held, a.clamp(-1.0, 2.0));
        }
    }
}

#[test]
fn paths_are_read_by_their_parts() {
    assert!(is_absolute("C:/a/b") && is_absolute("\\\\host\\share\\a"));
    assert!(!is_absolute("a/b") && !is_absolute("/a"));
    assert_eq!(file_name("C:/a/b.mp4").as_deref(), Some("b.mp4"));
    assert_eq!(file_name("C:/a/..").as_deref(), None);
    assert_eq!(parent("C:/a/b.mp4").as_deref(), Some("C:/a"));
    assert_eq!(push("C:/a", "D:/b"), "D:/b");
    assert_eq!(push("C:\\a", "b"), "C:\\a\\b");
    assert!(has_extension("a.b.GAMUT", "gamut") && !has_extension(".gamut", "gamut"));
    assert_eq!(beside("IMG.MOV", ".gamut"), "IMG.MOV.gamut");
}

#[test]
fn a_free_name_is_numbered_past_the_taken_ones() {
    let masks: Vec<Mask> = ["Sky", "sky 2", "Face"]
        .iter()
        .map(|name| Mask::new(name, MaskSource::default()))
        .collect();
    assert_eq!(free_name(&masks, "Sky"), "Sky 3");
    assert_eq!(free_name(&masks, "Cloud"), "Cloud");
}

#[test]
fn only_the_masks_that_change_the_picture_are_active() {
    let mut edit = PhotoEdit::of(Adjustments::default());
    for (name, exposure) in [("A", 0.0), ("B", 1.0), ("C", 1.0)] {
        let mut mask = Mask::new(name, MaskSource::default());
        mask.adjust.exposure = n(exposure);
        edit.masks.push(mask);
    }
    edit.masks[2].enabled = false;
    let active = active_masks(&edit.masks);
    assert_eq!(active.len(), 1);
    assert_eq!(active[0].0, 1);
    assert_eq!(active[0].1, edit.masks[1]);
    assert!(!edit.masks[0].is_active() && edit.masks[1].is_active());
}

#[test]
fn a_range_that_crossed_is_put_in_order() {
    let crossed = LuminanceRange {
        low: n(0.8),
        high: n(0.3),
        ..LuminanceRange::default()
    };
    let ordered = crossed.ordered();
    assert!(ordered.low.is_at_most(ordered.high));
    assert_eq!(
        [MaskOp::Add, MaskOp::Subtract, MaskOp::Intersect].map(|op| op.label()),
        ["Add", "Subtract", "Intersect"]
    );
}
