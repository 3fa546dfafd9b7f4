use gamut::crop::CropAspect;
use gamut::export::{all_presets, ExportPreset};

#[test]
fn the_four_sizes() {
    assert_eq!(ExportPreset::Feed4x5.size(), (1080, 1350));
    assert_eq!(ExportPreset::Square.size(), (1080, 1080));
    assert_eq!(ExportPreset::Grid3x4.size(), (1080, 1440));
    assert_eq!(ExportPreset::Story9x16.size(), (1080, 1920));
}

#[test]
fn every_size_has_the_aspect_of_its_crop() {
    for preset in all_presets() {
        let (w, h) = preset.size();
        let ratio = w as f32 / h as f32;
        let (rw, rh) = preset.aspect().ratio();
        assert!((ratio - rw as f32 / rh as f32).abs() < 1e-6, "{preset:?}");
        assert_eq!(ExportPreset::for_aspect(preset.aspect()), preset);
    }
    assert_eq!(
        ExportPreset::for_aspect(CropAspect::Story9x16),
        ExportPreset::Story9x16
    );
}

#[test]
fn names_parse_back() {
    for preset in all_presets() {
        assert_eq!(ExportPreset::parse(preset.name()), Some(preset));
    }
    assert_eq!(ExportPreset::parse("STORY"), Some(ExportPreset::Story9x16));
    assert_eq!(ExportPreset::parse("4:5"), Some(ExportPreset::Feed4x5));
    assert_eq!(ExportPreset::parse("16x9"), None);
}

#[test]
fn the_labels_name_the_shape() {
    assert_eq!(all_presets().len(), 4);
    for preset in all_presets() {
        assert!(!preset.label().is_empty());
        assert_eq!(ExportPreset::parse(&format!(" {} ", preset.name())), None);
    }
}
