use gamut::timeline::{Clip, Track, MIN_CLIP, TICKS};

/// Seconds in ticks.
fn s(seconds: f64) -> i64 {
    (seconds * TICKS as f64).round() as i64
}

#[test]
fn a_split_in_the_middle_makes_two_clips_that_meet() {
    let mut track = Track::one(Clip::whole(0, s(10.0)));
    assert_eq!(track.split_at(s(4.0)), Some(1));
    assert_eq!(track.clips.len(), 2);
    assert!((track.clips[0].source_out == s(4.0)));
    assert!((track.clips[1].source_in == s(4.0)));
    assert!((track.clips[1].source_out == s(10.0)));
    assert!((track.duration() == s(10.0)));
    assert_eq!(track.clip_at(s(4.0)), Some((1, s(0.0))));
    assert!((track.start_of(1) == s(4.0)));
}

#[test]
fn a_split_at_a_boundary_or_past_the_end_does_nothing() {
    let mut track = Track::one(Clip::whole(0, s(10.0)));
    track.split_at(s(4.0));
    assert_eq!(track.split_at(s(4.0)), None);
    assert_eq!(track.split_at(s(0.0)), None);
    assert_eq!(track.split_at(s(4.0) + MIN_CLIP / 2), None);
    assert_eq!(track.split_at(s(10.0)), None);
    assert_eq!(track.split_at(s(11.0)), None);
    assert_eq!(track.clips.len(), 2);
}

#[test]
fn a_ripple_delete_closes_the_gap() {
    let mut track = Track::one(Clip::whole(0, s(10.0)));
    track.split_at(s(3.0));
    track.split_at(s(7.0));
    let removed = track.ripple_delete(1).expect("the middle clip");
    assert!((removed.source_in == s(3.0)) && (removed.source_out == s(7.0)));
    assert_eq!(track.clips.len(), 2);
    assert!((track.duration() == s(6.0)));
    assert_eq!(
        track.clip_at(s(3.0)),
        Some((1, s(0.0)))
    );
    assert!((track.clips[1].source_in == s(7.0)));
    assert_eq!(track.ripple_delete(5), None);
    track.ripple_delete(0);
    track.ripple_delete(0);
    assert!(track.clips.is_empty());
    assert_eq!(track.clip_at(s(0.0)), None);
}

#[test]
fn trims_stop_at_one_frame_and_the_media_ends() {
    let mut track = Track::one(Clip::whole(0, s(10.0)));
    track.trim_in(0, s(2.5));
    assert!((track.clips[0].source_in == s(2.5)));
    track.trim_in(0, s(-1.0));
    assert!((track.clips[0].source_in == s(0.0)));
    track.trim_in(0, s(20.0));
    assert!((track.clips[0].source_in == s(10.0) - MIN_CLIP));
    track.trim_in(0, s(0.0));
    track.trim_out(0, s(4.0), s(10.0));
    assert!((track.clips[0].source_out == s(4.0)));
    track.trim_out(0, s(30.0), s(10.0));
    assert!((track.clips[0].source_out == s(10.0)));
    track.trim_out(0, s(-5.0), s(10.0));
    assert!((track.clips[0].source_out == MIN_CLIP));
    track.trim_in(9, s(1.0));
    track.trim_out(9, s(1.0), s(10.0));
}

#[test]
fn the_end_of_the_track_belongs_to_the_last_clip() {
    let mut track = Track::one(Clip::whole(0, s(5.0)));
    track.split_at(s(2.0));
    assert_eq!(track.clip_at(s(5.0)), Some((1, s(3.0))));
    assert_eq!(track.clip_at(s(5.1)), None);
    assert_eq!(track.clip_at(s(-0.1)), None);
    assert_eq!(track.clip_at(s(1.0)), Some((0, s(1.0))));
}

#[test]
fn a_frame_of_every_common_rate_is_whole_ticks() {
    for rate in [24, 25, 30, 50, 60, 48_000, 44_100] {
        assert_eq!(TICKS % rate, 0, "{rate}");
    }
    assert_eq!(MIN_CLIP, TICKS / 60);
}

#[test]
fn a_track_past_the_last_tick_cannot_be_measured() {
    let long = gamut::timeline::Clip { media: 0, source_in: 0, source_out: i64::MAX };
    let one = gamut::timeline::Track::one(long);
    assert!(one.is_measurable());
    let mut two = one.clone();
    two.clips.push(gamut::timeline::Clip { media: 0, source_in: 0, source_out: 1 });
    assert!(!two.is_measurable());
    two.clips[1].source_out = 0;
    assert!(two.is_measurable());
    assert_eq!(one.duration(), i64::MAX);
    assert_eq!(two.clips[0].duration(), i64::MAX);
    let wide = gamut::timeline::Track::one(gamut::timeline::Clip {
        media: 0,
        source_in: i64::MIN,
        source_out: i64::MAX,
    });
    assert!(!wide.is_measurable());
}
