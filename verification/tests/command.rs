use gamut::command::{command, scan, usage, Command, Numbers};
use gamut::export::ExportPreset;
use gamut::num::{Double, Single};

fn number(value: f32) -> Single {
    Single::from_bits(value.to_bits())
}

fn seconds(value: f64) -> Double {
    Double {
        bits: value.to_bits(),
    }
}

/// Reads a line as the program does: the numbers are read where they are
/// given, and a line that is no command gets the usage.
fn parsed(args: &[&str]) -> Result<Command, &'static str> {
    let args: Vec<String> = args.iter().map(|a| a.to_string()).collect();
    let slots = scan(&args).ok_or(usage())?;
    let read = |text: &String| text.parse::<f32>().ok().map(number);
    let numbers = Numbers {
        zoom: slots.zoom.as_ref().and_then(|text| read(text)),
        centre: slots
            .centre
            .as_ref()
            .and_then(|(x, y)| Some((read(x)?, read(y)?))),
        at: slots
            .at
            .as_ref()
            .and_then(|text| text.parse::<f64>().ok().map(seconds)),
    };
    command(slots, numbers).ok_or(usage())
}

fn assert_same(got: Result<Command, &'static str>, want: Result<Command, &'static str>) {
    assert_eq!(format!("{got:?}"), format!("{want:?}"));
}

#[test]
fn show_mask_goes_with_a_photo_screenshot_and_nothing_else() {
    assert_same(
        parsed(&[
            "--open",
            "a.jpg",
            "--edit",
            "e.json",
            "--screenshot",
            "o.png",
            "--show-mask",
            "Sky"
        ]),
        Ok(Command::Screenshot {
            photo: Some(String::from("a.jpg")),
            edit: Some(String::from("e.json")),
            version: None,
            look: None,
            show_mask: Some("Sky".to_string()),
            out: String::from("o.png"),
            at: None,
            view: None,
        })
    );
    let with = |rest: &[&str]| {
        let mut args = vec!["--show-mask", "Sky"];
        args.extend_from_slice(rest);
        parsed(&args)
    };
    assert!(with(&["--open", "a.jpg", "--export", "4x5", "o.jpg"]).is_err());
    assert!(with(&["--export-reel", "p.gamut", "o.mp4"]).is_err());
    assert!(with(&["--open", "v.mp4", "--screenshot", "o.png", "--at", "1.5"]).is_err());
    assert!(with(&["--screenshot", "o.png"]).is_err(), "no photo");
    assert!(with(&["a.jpg"]).is_err(), "the window takes none");
    assert!(
        with(&[
            "--open",
            "a.jpg",
            "--screenshot",
            "o.png",
            "--show-mask",
            "B"
        ])
        .is_err()
    );
    assert!(parsed(&["--open", "a.jpg", "--screenshot", "o.png", "--show-mask"]).is_err());
    assert!(
        parsed(&[
            "--open",
            "a.jpg",
            "--screenshot",
            "o.png",
            "--show-mask",
            " "
        ])
        .is_err()
    );
}

#[test]
fn no_arguments_opens_the_window() {
    assert_same(parsed(&[]), Ok(Command::Window { photo: None }));
}

#[test]
fn a_bare_path_opens_the_photo_in_the_window() {
    assert_same(
        parsed(&["a.heic"]),
        Ok(Command::Window {
            photo: Some(String::from("a.heic"))
        })
    );
}

#[test]
fn screenshot_with_open_and_edit() {
    assert_same(
        parsed(&[
            "--open",
            "a.jpg",
            "--screenshot",
            "o.png",
            "--edit",
            "e.json"
        ]),
        Ok(Command::Screenshot {
            photo: Some(String::from("a.jpg")),
            edit: Some(String::from("e.json")),
            version: None,
            look: None,
            show_mask: None,
            out: String::from("o.png"),
            at: None,
            view: None,
        })
    );
    assert_same(
        parsed(&["--screenshot", "o.png"]),
        Ok(Command::Screenshot {
            photo: None,
            edit: None,
            version: None,
            look: None,
            show_mask: None,
            out: String::from("o.png"),
            at: None,
            view: None,
        })
    );
}

#[test]
fn a_preset_and_a_version_name_ride_with_a_screenshot_or_an_export() {
    assert_same(
        parsed(&[
            "--open",
            "a.jpg",
            "--edit",
            "e.json",
            "--version-name",
            "Warm one",
            "--preset",
            "look.json",
            "--screenshot",
            "o.png",
        ]),
        Ok(Command::Screenshot {
            photo: Some(String::from("a.jpg")),
            edit: Some(String::from("e.json")),
            version: Some("Warm one".to_string()),
            look: Some(String::from("look.json")),
            show_mask: None,
            out: String::from("o.png"),
            at: None,
            view: None,
        })
    );
    assert_same(
        parsed(&[
            "--open", "a.jpg", "--preset", "l.json", "--export", "4x5", "o.jpg"
        ]),
        Ok(Command::Export {
            photo: String::from("a.jpg"),
            edit: None,
            version: None,
            look: Some(String::from("l.json")),
            preset: ExportPreset::Feed4x5,
            out: String::from("o.jpg"),
        })
    );
}

#[test]
fn a_preset_or_a_version_name_is_refused_where_it_cannot_apply() {
    // Not with a Reel export.
    assert!(parsed(&["--export-reel", "p.gamut", "o.mp4", "--preset", "l.json"]).is_err());
    assert!(parsed(&["--export-reel", "p.gamut", "o.mp4", "--version-name", "a"]).is_err());
    // Not on a video frame, not without a photo, not for the window.
    assert!(
        parsed(&[
            "--open",
            "a.mp4",
            "--screenshot",
            "o.png",
            "--at",
            "1",
            "--preset",
            "l.json"
        ])
        .is_err()
    );
    assert!(parsed(&["--screenshot", "o.png", "--preset", "l.json"]).is_err());
    assert!(parsed(&["a.jpg", "--preset", "l.json"]).is_err());
    // Not twice, not empty, not without a value.
    assert!(
        parsed(&[
            "--open",
            "a.jpg",
            "--screenshot",
            "o.png",
            "--preset",
            "a",
            "--preset",
            "b"
        ])
        .is_err()
    );
    assert!(
        parsed(&[
            "--open",
            "a.jpg",
            "--screenshot",
            "o.png",
            "--version-name",
            " "
        ])
        .is_err()
    );
    assert!(parsed(&["--open", "a.jpg", "--screenshot", "o.png", "--version-name"]).is_err());
}

#[test]
fn a_video_screenshot_takes_a_time() {
    assert_same(
        parsed(&["--open", "a.mp4", "--screenshot", "o.png", "--at", "3.0"]),
        Ok(Command::Screenshot {
            photo: Some(String::from("a.mp4")),
            edit: None,
            version: None,
            look: None,
            show_mask: None,
            out: String::from("o.png"),
            at: Some(seconds(3.0)),
            view: None,
        })
    );
    assert!(parsed(&["--screenshot", "o.png", "--at", "3.0"]).is_err());
    assert!(parsed(&["--open", "a.mp4", "--screenshot", "o.png", "--at", "x"]).is_err());
    assert!(parsed(&["--open", "a.mp4", "--at", "1"]).is_err());
}

#[test]
fn a_reel_export_takes_an_input_and_an_output() {
    assert_same(
        parsed(&["--export-reel", "p.gamut", "o.mp4"]),
        Ok(Command::ExportReel {
            input: String::from("p.gamut"),
            out: String::from("o.mp4"),
        })
    );
    assert!(parsed(&["--export-reel", "p.gamut"]).is_err());
    assert!(parsed(&["--export-reel", "p.gamut", "o.mp4", "--screenshot", "s.png"]).is_err());
}

#[test]
fn export_takes_a_preset_and_a_path() {
    assert_same(
        parsed(&["--open", "a.heic", "--export", "9x16", "o.jpg"]),
        Ok(Command::Export {
            photo: String::from("a.heic"),
            edit: None,
            version: None,
            look: None,
            preset: ExportPreset::Story9x16,
            out: String::from("o.jpg"),
        })
    );
    assert!(parsed(&["--export", "9x16", "o.jpg"]).is_err());
    assert!(parsed(&["--open", "a.heic", "--export", "16x9", "o.jpg"]).is_err());
    assert!(parsed(&["--open", "a.heic", "--export", "9x16"]).is_err());
}

#[test]
fn bad_arguments_print_the_usage() {
    assert!(parsed(&["--screenshot"]).is_err());
    assert!(parsed(&["--edit", "e.json"]).is_err());
    assert!(parsed(&["a.jpg", "b.jpg"]).is_err());
    assert!(parsed(&["--nope"]).is_err());
    assert!(parsed(&["--screenshot", "o.png", "--export", "4x5", "o.jpg"]).is_err());
}

#[test]
fn a_zoom_and_a_centre_ride_with_a_photo_screenshot() {
    let shot = |view| Command::Screenshot {
        photo: Some(String::from("a.jpg")),
        edit: None,
        version: None,
        look: None,
        show_mask: None,
        out: String::from("o.png"),
        at: None,
        view,
    };
    assert_same(
        parsed(&["--open", "a.jpg", "--screenshot", "o.png", "--zoom", "100"]),
        Ok(shot(Some((number(100.0), (number(0.5), number(0.5))))))
    );
    assert_same(
        parsed(&[
            "--open",
            "a.jpg",
            "--screenshot",
            "o.png",
            "--zoom",
            "400",
            "--centre",
            "0.25,0.75"
        ]),
        Ok(shot(Some((number(400.0), (number(0.25), number(0.75))))))
    );
    // The ends of the range are inside it.
    for percent in ["1", "800"] {
        assert!(
            parsed(&[
                "--open",
                "a.jpg",
                "--screenshot",
                "o.png",
                "--zoom",
                percent
            ])
            .is_ok()
        );
    }
}

#[test]
fn a_zoom_is_refused_where_there_is_no_view_to_zoom() {
    let zoom = ["--zoom", "200"];
    let with = |rest: &[&str]| {
        let mut args = zoom.to_vec();
        args.extend_from_slice(rest);
        parsed(&args)
    };
    assert!(with(&["--open", "a.jpg", "--export", "4x5", "o.jpg"]).is_err());
    assert!(with(&["--export-reel", "p.gamut", "o.mp4"]).is_err());
    assert!(with(&["--open", "v.mp4", "--screenshot", "o.png", "--at", "1.5"]).is_err());
    assert!(with(&["a.jpg"]).is_err(), "the window takes none");
    assert!(with(&["--open", "a.jpg"]).is_err(), "no screenshot");
    assert!(with(&["--screenshot", "o.png"]).is_err(), "no photo");
    // Outside 1 to 800, not a number, twice, without a value.
    let shot = ["--open", "a.jpg", "--screenshot", "o.png"];
    for bad in [
        &["--zoom", "0"][..],
        &["--zoom", "900"],
        &["--zoom", "0.5"],
        &["--zoom", "-100"],
        &["--zoom", "big"],
        &["--zoom", "100", "--zoom", "200"],
        &["--zoom"],
    ] {
        let mut args = shot.to_vec();
        args.extend_from_slice(bad);
        assert!(parsed(&args).is_err(), "{bad:?}");
    }
}

#[test]
fn a_centre_is_refused_without_a_zoom_or_off_the_photo() {
    let shot = ["--open", "a.jpg", "--screenshot", "o.png"];
    for bad in [
        &["--centre", "0.5,0.5"][..],
        &["--zoom", "100", "--centre", "1.5,0.5"],
        &["--zoom", "100", "--centre", "0.5"],
        &["--zoom", "100", "--centre", "a,b"],
        &[
            "--zoom", "100", "--centre", "0.1,0.1", "--centre", "0.2,0.2",
        ],
        &["--zoom", "100", "--centre"],
    ] {
        let mut args = shot.to_vec();
        args.extend_from_slice(bad);
        assert!(parsed(&args).is_err(), "{bad:?}");
    }
}

#[test]
fn the_usage_names_every_flag() {
    for flag in [
        "--screenshot",
        "--edit",
        "--version-name",
        "--preset",
        "--show-mask",
        "--zoom",
        "--centre",
        "--at",
        "--export",
        "--export-reel",
    ] {
        assert!(usage().contains(flag), "{flag}");
    }
}

#[test]
fn the_order_of_the_groups_does_not_matter() {
    let want = || {
        parsed(&[
            "--open",
            "a.jpg",
            "--screenshot",
            "o.png",
            "--version-name",
            "One",
        ])
    };
    assert!(want().is_ok());
    for args in [
        ["--version-name", "One", "--open", "a.jpg", "--screenshot", "o.png"],
        ["--screenshot", "o.png", "--version-name", "One", "--open", "a.jpg"],
    ] {
        assert_same(parsed(&args), want());
    }
    assert_same(
        parsed(&["--export", "4x5", "o.jpg", "a.jpg"]),
        parsed(&["a.jpg", "--export", "4x5", "o.jpg"]),
    );
    // A second photo is refused wherever it stands.
    assert!(parsed(&["a.jpg", "--screenshot", "o.png", "--open", "b.jpg"]).is_err());
    assert!(parsed(&["--open", "b.jpg", "a.jpg", "--screenshot", "o.png"]).is_err());
}
