use gamut::crop::{Crop, CropAspect, CropRect};
use gamut::num::Single;
use gamut::project::{MediaRef, Project};
use gamut::screenshot::{
    write_developed, write_developed_showing, write_video_frame, FrameError, HEIGHT, WIDTH,
};
use gamut::timeline::{Clip, Track, TICKS};
use gamut::view::{max_scale, Axis, View, Zoom};
use gamut::viewer::{
    build_ahead, guide, paint, picture, view_gate, view_request, Ahead, Guide, Paint, Picture,
    PixelRect, Screen, Shown, Size, Target, ViewInput, ViewWindow,
};

fn n(value: f32) -> Single {
    Single::from_bits(value.to_bits())
}

fn value(number: Single) -> f32 {
    f32::from_bits(number.bits)
}

fn size(width: u32, height: u32) -> Size {
    Size { width, height }
}

fn rect(x: u32, y: u32, width: u32, height: u32) -> PixelRect {
    PixelRect {
        x,
        y,
        width,
        height,
    }
}

fn window(x: u32, y: u32) -> ViewWindow {
    ViewWindow {
        full: size(6000, 4000),
        window: rect(900, 900, 1400, 1200),
        visible: rect(x, y, 900, 700),
    }
}

#[test]
fn the_graph_runs_only_when_something_changed() {
    let mut screen = Screen::new(size(1080, 1350));
    let target = Target::Whole(size(900, 600));
    assert!(screen.wants_render(target, 1, false, false));
    assert!(screen.show(target, 1, false), "the texture is registered");
    assert!(!screen.wants_render(target, 1, false, false));
    assert!(screen.wants_render(target, 1, false, true), "dirty");
    assert!(screen.wants_render(target, 2, false, false), "a new texture");
    assert!(screen.wants_render(target, 1, true, false), "the filter");
    assert!(!screen.show(target, 1, false), "the same texture again");
    let zoomed = Target::Window(window(1000, 1000));
    assert!(screen.wants_render(zoomed, 1, false, false));
    assert!(screen.show(zoomed, 1, false));
    assert_eq!(zoomed.output_size(), size(900, 700));
    assert_eq!(
        screen.window_rendered(),
        Some((size(6000, 4000), rect(900, 900, 1400, 1200)))
    );
    assert!(screen.show_placeholder(size(400, 500)));
    assert!(!screen.show_placeholder(size(400, 500)));
    assert_eq!(screen.shown, Shown::Placeholder(size(400, 500)));
}

#[test]
fn a_frame_is_uploaded_once_and_an_open_file_takes_the_next() {
    let mut screen = Screen::new(size(1, 1));
    assert!(!screen.take_frame(None));
    assert!(screen.take_frame(Some(7)));
    assert!(!screen.take_frame(Some(7)));
    screen.clear_video();
    assert!(screen.take_frame(Some(7)));
}

#[test]
fn a_photo_comes_before_a_project_and_a_project_needs_its_frame() {
    assert_eq!(picture(true, true, true), Picture::Photo);
    assert_eq!(picture(false, true, true), Picture::Video);
    assert_eq!(picture(false, true, false), Picture::Placeholder);
    assert_eq!(picture(false, false, true), Picture::Placeholder);
    assert_eq!(paint(true, true, true), Paint::Seen);
    assert_eq!(paint(true, false, true), Paint::Whole);
    assert_eq!(paint(true, true, false), Paint::Fitted);
}

#[test]
fn a_pan_builds_ahead_a_jump_does_not_and_a_pause_goes_on() {
    let (before, now) = (window(1000, 1000), window(1040, 1000));
    let pad = (100, 100);
    let ahead = rect(1200, 900, 1400, 1200);
    let built = Some((size(6000, 4000), ahead));
    let some = |view| Some(Target::Window(view));
    assert_eq!(
        build_ahead(some(before), some(now), pad, built, true),
        Ahead::Plan {
            full: now.full,
            window: now.window,
            before: before.visible,
            built: Some(ahead)
        }
    );
    assert_eq!(
        build_ahead(some(before), some(window(1101, 1000)), pad, built, true),
        Ahead::Nothing,
        "a jump"
    );
    assert_eq!(
        build_ahead(some(now), some(now), pad, built, true),
        Ahead::Continue {
            full: now.full,
            window: ahead
        }
    );
    assert_eq!(
        build_ahead(some(now), some(now), pad, built, false),
        Ahead::Nothing
    );
    let other = Some((size(3000, 2000), ahead));
    assert_eq!(
        build_ahead(some(now), some(now), pad, other, true),
        Ahead::Nothing,
        "built at another size"
    );
    assert_eq!(
        build_ahead(Some(Target::Whole(size(9, 6))), some(now), pad, built, true),
        Ahead::Nothing
    );
}

#[test]
fn nothing_zooms_under_the_prompt_and_space_does_not_pan_while_typing() {
    let quiet = ViewInput {
        space: false,
        space_released: false,
        typing: false,
        prompt: false,
        armed: false,
    };
    let gate = view_gate(ViewInput {
        space: true,
        ..quiet
    });
    assert!(gate.space_pans && gate.zooms && gate.bare_picture && !gate.forget_space);
    assert!(!view_gate(ViewInput { space: true, typing: true, ..quiet }).space_pans);
    let prompt = view_gate(ViewInput {
        space: true,
        prompt: true,
        ..quiet
    });
    assert!(!prompt.space_pans && !prompt.zooms && !prompt.bare_picture);
    assert!(!view_gate(ViewInput { prompt: true, ..quiet }).bare_picture);
    assert!(view_gate(quiet).bare_picture);
    assert!(view_gate(quiet).forget_space);
    assert!(!view_gate(ViewInput { space_released: true, ..quiet }).forget_space);
    assert!(!view_gate(ViewInput { armed: true, ..quiet }).bare_picture);
    assert_eq!(view_request(false, Some(1), Some(2)), Some(1));
    assert_eq!(view_request(false, None, Some(2)), Some(2));
    assert_eq!(view_request(true, Some(1), Some(2)), None);
}

#[test]
fn the_guide_belongs_to_the_aspect() {
    assert_eq!(guide(CropAspect::Story9x16, false), Guide::SafeZone);
    assert_eq!(guide(CropAspect::Feed4x5, true), Guide::Grid);
    assert_eq!(guide(CropAspect::Feed4x5, false), Guide::Nothing);
    assert_eq!(guide(CropAspect::Square, true), Guide::Nothing);
}

#[test]
fn the_scale_is_held_between_fit_and_eight() {
    let fit = n(0.15);
    let at = |scale: f32| View {
        zoom: Zoom::Scale(n(scale)),
        ..View::default()
    };
    assert_eq!(value(at(40.0).scale(fit)), 8.0);
    assert_eq!(value(at(0.05).scale(fit)), 0.15);
    assert_eq!(value(at(2.0).scale(fit)), 2.0);
    assert_eq!(value(View::default().scale(fit)), 0.15);
    // A picture so small that fitting magnifies it past 800 percent
    // stops at the fit scale.
    assert_eq!(value(max_scale(n(20.0))), 20.0);
    assert_eq!(value(max_scale(fit)), 8.0);
}

#[test]
fn a_view_snaps_to_fit_and_its_centre_is_held() {
    let axis = |fits: bool, half: f32| Axis {
        fits,
        least: n(half),
        most: n(1.0 - half),
    };
    let zoomed = View {
        zoom: Zoom::Scale(n(1.0)),
        centre_x: n(-3.0),
        centre_y: n(0.9),
    };
    let held = zoomed.clamped(n(0.15), n(0.15015), axis(false, 0.075), axis(true, 0.5));
    assert!(matches!(held.zoom, Zoom::Scale(_)));
    assert_eq!((value(held.centre_x), value(held.centre_y)), (0.075, 0.5));
    let again = held.clamped(n(0.15), n(0.15015), axis(false, 0.075), axis(true, 0.5));
    assert_eq!(value(again.centre_x), 0.075);
    let out = View {
        zoom: Zoom::Scale(n(0.1501)),
        ..zoomed
    };
    let fitted = out.clamped(n(0.15), n(0.15015), axis(true, 0.5), axis(true, 0.5));
    assert!(matches!(fitted.zoom, Zoom::Fit));
    assert_eq!(value(fitted.centre_x), 0.5);
}

fn s(seconds: f64) -> i64 {
    (seconds * TICKS as f64).round() as i64
}

#[test]
fn a_frame_of_a_project_is_of_the_clip_under_its_time() {
    let mut project = Project {
        media: vec![MediaRef {
            path: "a.mp4".to_string(),
        }],
        track: Track {
            clips: vec![
                Clip {
                    media: 0,
                    source_in: s(2.0),
                    source_out: s(3.0),
                },
                Clip {
                    media: 4,
                    source_in: s(0.0),
                    source_out: s(1.0),
                },
            ],
        },
        ..Project::default()
    };
    let frame = write_video_frame(&project, s(0.25)).expect("a frame");
    assert_eq!((frame.media, frame.time), (0, s(2.25)));
    assert!(frame.crop.is_none(), "the whole picture is fitted");
    let lost = write_video_frame(&project, s(1.5)).expect_err("no media");
    assert_eq!(lost, FrameError::NoMedia(1));
    assert_eq!(lost.message("1.5"), "clip 1 names no media");
    let late = write_video_frame(&project, s(2.5)).expect_err("past the end");
    assert_eq!(late.message("2.5"), "2.5 s is past the end of the track");
    project.crop = Crop {
        aspect: CropAspect::Square,
        rect: CropRect {
            x: n(0.25),
            ..CropRect::full()
        },
    };
    assert!(write_video_frame(&project, 0).expect("a frame").crop == Some(project.crop));
}

#[test]
fn a_screenshot_shows_a_mask_only_when_it_is_asked_to() {
    let shot = write_developed("a.jpg", "o.png");
    assert_eq!((shot.photo.as_str(), shot.out.as_str()), ("a.jpg", "o.png"));
    assert_eq!((shot.width, shot.height), (WIDTH, HEIGHT));
    assert_eq!(shot.show_mask, None);
    let shown = write_developed_showing("a.jpg", Some("Sky".to_string()), "o.png");
    assert_eq!(shown.show_mask.as_deref(), Some("Sky"));
}
