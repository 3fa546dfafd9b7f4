use gamut::crop::Crop;
use gamut::edit::PhotoEdit;
use gamut::num::Single;
use gamut::sidecar::{suffix, Sidecar, VersionError, VERSION};

fn n(value: f32) -> Single {
    Single::from_bits(value.to_bits())
}

#[test]
fn version_names_collide_without_regard_to_case() {
    let mut sidecar = Sidecar::default();
    sidecar.save_version("Warm").expect("the first");
    assert_eq!(
        sidecar.save_version(" warm "),
        Err(VersionError::NameTaken("warm".to_string()))
    );
    assert_eq!(sidecar.save_version("  "), Err(VersionError::EmptyName));
    sidecar.save_version("Cold").expect("another name");
    assert_eq!(
        sidecar.rename_version("cold", "WARM"),
        Err(VersionError::NameTaken("WARM".to_string()))
    );
    sidecar
        .rename_version("cold", "Cold")
        .expect("its own name");
    sidecar.rename_version("COLD", "Cool").expect("a free name");
    assert_eq!(sidecar.active_version.as_deref(), Some("Cool"));
    assert!(sidecar.find_version("cool").is_some());
    let error = sidecar.version("nope").expect_err("unknown");
    assert_eq!(
        error.message(),
        "no version named nope: the versions are Warm, Cool"
    );
}

/// Two versions, Bright (exposure 1) and Dark (exposure -1), with Dark
/// the active one.
fn bright_and_dark() -> Sidecar {
    let mut sidecar = Sidecar::default();
    sidecar.edit.adjust.exposure = n(1.0);
    sidecar.save_version("Bright").expect("save");
    sidecar.edit.adjust.exposure = n(-1.0);
    sidecar.save_version("Dark").expect("save");
    sidecar
}

#[test]
fn switching_on_a_clean_state_brings_the_version_in() {
    let mut sidecar = bright_and_dark();
    assert!(!sidecar.is_dirty());
    sidecar.switch_to("bright").expect("switch");
    assert_eq!(sidecar.edit.adjust.exposure, n(1.0));
    assert_eq!(sidecar.active_version.as_deref(), Some("Bright"));
    assert!(!sidecar.is_dirty());
    assert_eq!(sidecar.version("Dark").expect("found").edit.adjust.exposure, n(-1.0));
}

/// The rule that replaced the save-back of version 2: a switch never
/// writes into a version, so work that was not kept is gone.
#[test]
fn switching_on_a_dirty_state_leaves_the_version_it_came_from_untouched() {
    let mut sidecar = bright_and_dark();
    let before = sidecar.versions.clone();

    // Working on Dark: a change, then a switch away and back.
    sidecar.edit.adjust.contrast = n(30.0);
    assert!(sidecar.is_dirty());
    sidecar.switch_to("bright").expect("switch");
    assert_eq!(sidecar.versions, before, "no version was written");
    assert_eq!(sidecar.edit.adjust.exposure, n(1.0));
    assert_eq!(sidecar.edit.adjust.contrast, n(0.0));
    sidecar.switch_to("Dark").expect("switch back");
    assert_eq!(sidecar.edit.adjust.exposure, n(-1.0));
    assert_eq!(sidecar.edit.adjust.contrast, n(0.0), "Dark is as it was saved");
    assert_eq!(sidecar.versions, before);

}

#[test]
fn update_version_writes_the_working_state_into_the_named_version() {
    let mut sidecar = bright_and_dark();
    sidecar.edit.adjust.contrast = n(30.0);
    sidecar.crop.rect.width = n(0.5);
    sidecar.update_version("dark").expect("update");
    assert!(!sidecar.is_dirty());
    let dark = sidecar.version("Dark").expect("found");
    assert_eq!(dark.edit.adjust.contrast, n(30.0));
    assert_eq!(dark.crop.rect.width, n(0.5));
    assert_eq!(sidecar.version("Bright").expect("found").edit.adjust.contrast, n(0.0));

    // Updating another version makes that one the active version.
    sidecar.edit.adjust.contrast = n(45.0);
    sidecar.update_version("Bright").expect("update");
    assert_eq!(sidecar.active_version.as_deref(), Some("Bright"));
    assert_eq!(
        sidecar.version("Bright").expect("found").edit.adjust.contrast,
        n(45.0)
    );
    assert_eq!(sidecar.version("Dark").expect("found").edit.adjust.contrast, n(30.0));
    assert!(!sidecar.is_dirty());

    let error = sidecar.update_version("nope").expect_err("unknown");
    assert_eq!(
        error.message(),
        "no version named nope: the versions are Bright, Dark"
    );
}

#[test]
fn is_dirty_follows_the_edit_and_the_crop() {
    let mut sidecar = Sidecar::default();
    sidecar.edit.adjust.exposure = n(0.5);
    assert!(
        !sidecar.is_dirty(),
        "no active version, nothing to be behind"
    );
    sidecar.save_version("One").expect("save");
    assert!(!sidecar.is_dirty());

    sidecar.edit.adjust.exposure = n(0.75);
    assert!(sidecar.is_dirty());
    sidecar.edit.adjust.exposure = n(0.5);
    assert!(!sidecar.is_dirty(), "back where the version is");

    sidecar.crop.rect.x = n(0.1);
    assert!(sidecar.is_dirty());
    sidecar.switch_to("One").expect("switch");
    assert!(!sidecar.is_dirty());
    assert_eq!(sidecar.crop.rect.x, n(0.0));

    sidecar.edit.adjust.look.wheels.shadows.x = n(0.2);
    assert!(sidecar.is_dirty());
    sidecar.delete_version("One").expect("delete");
    assert!(!sidecar.is_dirty(), "the active version is gone");
}

#[test]
fn rename_and_delete_keep_working_around_the_active_version() {
    let mut sidecar = bright_and_dark();
    sidecar.edit.adjust.contrast = n(30.0);
    sidecar.rename_version("dark", "Night").expect("rename");
    assert_eq!(sidecar.active_version.as_deref(), Some("Night"));
    assert!(sidecar.is_dirty(), "a rename keeps the comparison");
    sidecar.update_version("Night").expect("update");
    assert!(!sidecar.is_dirty());

    sidecar.delete_version("night").expect("delete");
    assert_eq!(sidecar.active_version, None);
    assert_eq!(sidecar.versions.len(), 1);
    assert_eq!(sidecar.edit.adjust.contrast, n(30.0), "the working state stays");
    sidecar.delete_version("Bright").expect("delete");
    assert!(sidecar.versions.is_empty());
}

#[test]
fn switching_to_the_version_in_use_brings_it_back_as_saved() {
    let mut sidecar = Sidecar::default();
    sidecar.edit.adjust.exposure = n(1.0);
    sidecar.save_version("Sunset Version").expect("save");
    sidecar.edit = PhotoEdit::default();
    sidecar.switch_to("Sunset Version").expect("switch");
    assert_eq!(sidecar.edit.adjust.exposure, n(1.0), "the look comes back");
    assert_eq!(
        sidecar.versions[0].edit.adjust.exposure, n(1.0),
        "the version is kept"
    );

    sidecar.edit = PhotoEdit::default();
    sidecar.save_version("Normal Version").expect("save");
    sidecar.switch_to("Sunset Version").expect("switch");
    assert_eq!(sidecar.edit.adjust.exposure, n(1.0));
    sidecar.switch_to("Normal Version").expect("switch");
    assert_eq!(sidecar.edit.adjust.exposure, n(0.0));
}

#[test]
fn the_sidecar_sits_next_to_the_photo_with_its_full_name() {
    let path = Sidecar::path_for("C:/photos/IMG_0001.HEIC");
    assert_eq!(path.replace('\\', "/"), "C:/photos/IMG_0001.HEIC.gamut.json");
    assert!(path.ends_with(suffix()));
    assert_eq!(
        Sidecar::path_for("Portrait_8.jpg"),
        "Portrait_8.jpg.gamut.json"
    );
}

#[test]
fn an_error_says_what_is_wrong() {
    let mut sidecar = Sidecar::new(PhotoEdit::default(), Crop::default());
    assert_eq!(sidecar.version, VERSION);
    assert_eq!(
        sidecar.version("x").expect_err("none").message(),
        "no version named x: this photo has no versions"
    );
    assert_eq!(VersionError::EmptyName.message(), "a version needs a name");
    sidecar.save_version("One").expect("save");
    assert_eq!(
        sidecar.save_version("ONE").expect_err("taken").message(),
        "a version named ONE already exists"
    );
    assert!(sidecar.switch_to("two").is_err());
    assert!(sidecar.delete_version("two").is_err());
    assert!(sidecar.rename_version("one", "  ").is_err());
    assert_eq!(suffix(), ".gamut.json");
}

/// Names that differ only in case are one name by the rules of Unicode.
#[test]
fn names_collide_in_other_alphabets_too() {
    let mut sidecar = Sidecar::default();
    sidecar.save_version("\u{c4}RGER").expect("save");
    assert!(sidecar.save_version("\u{e4}rger").is_err());
    assert_eq!(sidecar.find_version(" \u{c4}rger "), Some(0));
}
