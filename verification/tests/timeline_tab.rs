use gamut::num::Single;
use gamut::timeline::{Clip, Track, TICKS};
use gamut::timeline_tab::{
    clip_spans, clip_under, play_label, shortcuts, tick_seconds, timecode, track_area, transport,
    Action, TimelineKeys, TrackInput, TrackOutcome, TransportClicks,
};

fn s(seconds: f64) -> i64 {
    (seconds * TICKS as f64).round() as i64
}

#[test]
fn timecodes_carry_minutes_seconds_and_frames() {
    assert_eq!(timecode(s(0.0), 30_000), "00:00.00");
    assert_eq!(timecode(s(65.5), 30_000), "01:05.15");
    assert_eq!(timecode(s(-1.0), 30_000), "00:00.00");
    assert_eq!(timecode(s(6000.0), 30_000), "100:00.00");
    assert_eq!(timecode(s(0.5), 0), "00:00.01", "at least one frame a second");
}

#[test]
fn ticks_keep_at_least_sixty_points_apart() {
    let ticks = |scale: f32| tick_seconds(Single::from_bits(scale.to_bits()));
    assert_eq!(ticks(1000.0), 100);
    assert_eq!(ticks(100.0), 1000);
    assert_eq!(ticks(10.0), 10_000);
    assert_eq!(ticks(0.1), 120_000);
    assert_eq!(ticks(f32::NAN), 120_000);
    // The same as the products say, on both sides of every step.
    for scale in [600.0f32, 240.0, 120.0, 60.0, 30.0, 12.0, 6.0, 2.0, 1.0] {
        for near in [
            f32::from_bits(scale.to_bits() - 1),
            scale,
            f32::from_bits(scale.to_bits() + 1),
        ] {
            let want = [0.1, 0.25, 0.5, 1.0, 2.0, 5.0, 10.0, 30.0, 60.0]
                .into_iter()
                .find(|step| step * f64::from(near) >= 60.0)
                .unwrap_or(120.0);
            assert_eq!(ticks(near), (want * 1000.0).round() as u32, "{near}");
        }
    }
}

const NONE: TimelineKeys = TimelineKeys {
    space: false,
    split: false,
    delete: false,
    home: false,
    end: false,
    left: false,
    right: false,
};

#[test]
fn the_keys_act_in_order_and_a_jump_pauses_first() {
    assert!(shortcuts(NONE).is_empty());
    assert_eq!(
        shortcuts(TimelineKeys {
            space: true,
            end: true,
            right: true,
            ..NONE
        }),
        [
            Action::Toggle,
            Action::Pause,
            Action::SeekEnd,
            Action::StepOn
        ]
    );
    assert_eq!(
        shortcuts(TimelineKeys { home: true, left: true, split: true, delete: true, ..NONE }),
        [
            Action::Split,
            Action::Delete,
            Action::Pause,
            Action::SeekStart,
            Action::StepBack
        ]
    );
}

#[test]
fn the_transport_deletes_only_a_selected_clip() {
    let all = TransportClicks {
        play: true,
        split: true,
        delete: true,
    };
    assert_eq!(transport(all, false), [Action::Toggle, Action::Split]);
    assert_eq!(
        transport(all, true),
        [Action::Toggle, Action::Split, Action::Delete]
    );
    assert_eq!((play_label(true), play_label(false)), ("Pause", "Play"));
}

#[test]
fn the_clips_lie_end_to_end() {
    let mut track = Track::one(Clip::whole(0, s(10.0)));
    track.split_at(s(4.0));
    track.split_at(s(7.0));
    assert_eq!(
        clip_spans(&track),
        [(0, s(4.0)), (s(4.0), s(7.0)), (s(7.0), s(10.0))]
    );
    assert_eq!(clip_under(&track, s(4.0)), Some(1));
    assert_eq!(clip_under(&track, s(10.0)), Some(2));
    assert_eq!(clip_under(&track, s(10.1)), None);
}

#[test]
fn a_trim_is_no_seek_and_a_click_beside_the_clips_selects_none() {
    let quiet = TrackInput {
        trim: None,
        clicked: false,
        dragged: false,
        pointer: true,
        clip: None,
    };
    assert_eq!(
        track_area(quiet, Some(2)),
        TrackOutcome {
            trim: None,
            seek: false,
            selected: Some(2)
        }
    );
    let trim = TrackInput {
        trim: Some((1, true)),
        dragged: true,
        ..quiet
    };
    assert_eq!(
        track_area(trim, None),
        TrackOutcome {
            trim: Some((1, true)),
            seek: false,
            selected: None
        }
    );
    let click = TrackInput {
        clicked: true,
        ..quiet
    };
    assert_eq!(track_area(click, Some(0)).selected, None);
    assert!(track_area(click, Some(0)).seek);
    let on_a_clip = TrackInput {
        clip: Some(3),
        ..click
    };
    assert_eq!(track_area(on_a_clip, None).selected, Some(3));
}
