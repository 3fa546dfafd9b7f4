use gamut::crop::{Crop, CropAspect, CropRect};
use gamut::num::Single;
use gamut::project::Project;
use gamut::reel::{
    clip_under_frame, export, failed_part, frame_count, output_rate, sound_frames, Buffer,
    Buffers, ClipSound, Decoder, ExportError, Message, Part, Pending, Step, Turn,
    TRANSFER_BUFFERS,
};
use gamut::timeline::{Clip, Track, TICKS};

fn s(seconds: f64) -> i64 {
    (seconds * TICKS as f64).round() as i64
}

#[test]
fn the_output_rate_keeps_the_common_rates_and_defaults_to_30() {
    let rate = |source: f64| output_rate(source.round() as i64);
    assert_eq!(rate(23.976), 24);
    assert_eq!(rate(25.0), 25);
    assert_eq!(rate(29.97), 30);
    assert_eq!(rate(59.94), 60);
    assert_eq!(rate(120.0), 30);
    assert_eq!(rate(0.0), 30);
}

#[test]
fn the_frames_cover_the_track_and_are_at_least_one() {
    assert_eq!(frame_count(0, 30), 1);
    assert_eq!(frame_count(s(5.0), 30), 150);
    assert_eq!(frame_count(s(5.7), 30), 171);
    assert_eq!(frame_count(s(5.0) + 1, 30), 150, "a tick over is no frame");
    assert_eq!(frame_count(s(5.0) + 1_000, 30), 151);
    for (seconds, fps) in [(5.7, 30u32), (0.04, 25), (12.345, 60), (3.0, 24)] {
        let exact = ((seconds * f64::from(fps)) - 1e-6).ceil().max(1.0) as i64;
        assert_eq!(frame_count(s(seconds), fps), exact);
    }
}

fn project(clips: Vec<Clip>) -> Project {
    Project {
        track: Track { clips },
        ..Project::default()
    }
}

#[test]
fn an_export_needs_a_clip_and_its_media() {
    let empty = export(&project(vec![]), &vec![30]).expect_err("no clip");
    assert_eq!(empty, ExportError::EmptyTrack);
    assert_eq!(empty.message(), "the track is empty");
    let clip = Clip {
        media: 2,
        source_in: 0,
        source_out: s(2.0),
    };
    let lost = export(&project(vec![clip]), &vec![30]).expect_err("no media");
    assert_eq!(lost, ExportError::NoMedia);
    assert_eq!(lost.message(), "a clip names no media");
    assert_eq!(
        ExportError::NoFrame(41).message(),
        "no frame decoded for frame 41"
    );
}

#[test]
fn an_export_takes_the_rate_of_its_first_media_and_the_crop_of_the_project() {
    let clips = vec![
        Clip {
            media: 1,
            source_in: s(1.0),
            source_out: s(3.0),
        },
        Clip::whole(0, s(1.0)),
    ];
    let mut project = project(clips);
    let plan = export(&project, &vec![30, 25]).expect("a plan");
    assert_eq!((plan.first_media, plan.fps, plan.frames), (1, 25, 75));
    assert!(plan.crop.is_none(), "the whole picture is fitted");
    project.crop = Crop {
        aspect: CropAspect::Story9x16,
        rect: CropRect {
            width: Single::from_bits(0.5f32.to_bits()),
            ..CropRect::full()
        },
    };
    let plan = export(&project, &vec![30, 120]).expect("a plan");
    assert_eq!(plan.fps, 30);
    assert!(plan.crop == Some(project.crop));
}

/// Serves one output frame from a list of frames the media has yet to give.
fn serve(decoder: &mut Decoder, frames: &mut Vec<i64>, wanted: i64, half: i64) -> Option<i64> {
    loop {
        match decoder.advance(wanted, half) {
            Step::Take => {}
            Step::Stop => break,
            Step::Ask => {
                let next = if frames.is_empty() {
                    None
                } else {
                    Some(frames.remove(0))
                };
                if !decoder.decoded(next) {
                    break;
                }
            }
        }
    }
    let (due, first) = (decoder.unsent, decoder.lookahead);
    match decoder.serve() {
        Message::Due => due,
        Message::First => first,
        Message::Again => None,
    }
}

#[test]
fn the_last_frame_that_is_due_is_sent_and_a_seek_past_it_sends_the_first() {
    let mut decoder = Decoder::new();
    let mut frames = vec![0, 10, 20, 30, 40];
    assert_eq!(serve(&mut decoder, &mut frames, 0, 5), Some(0));
    assert_eq!(decoder.lookahead, Some(10));
    assert_eq!(serve(&mut decoder, &mut frames, 3, 5), None, "again");
    assert_eq!(serve(&mut decoder, &mut frames, 26, 5), Some(30), "20 is dropped");
    assert_eq!(serve(&mut decoder, &mut frames, 100, 5), Some(40));
    assert_eq!(serve(&mut decoder, &mut frames, 200, 5), None, "the media ended");
    let mut late = Decoder::new();
    assert_eq!(serve(&mut late, &mut vec![50, 60], 20, 5), Some(50));
}

#[test]
fn another_clip_seeks_and_another_media_opens() {
    let track = Track {
        clips: vec![
            Clip {
                media: 0,
                source_in: s(2.0),
                source_out: s(3.0),
            },
            Clip {
                media: 0,
                source_in: s(7.0),
                source_out: s(8.0),
            },
            Clip::whole(1, s(1.0)),
        ],
    };
    let mut decoder = Decoder::new();
    let turn = |media, open, seek, wanted| Turn::Frame {
        media,
        open,
        seek,
        wanted,
    };
    assert_eq!(decoder.begin(&track, 0, 30), turn(0, true, true, s(2.0)));
    assert_eq!(decoder.begin(&track, 15, 30), turn(0, false, false, s(2.5)));
    decoder.lookahead = Some(s(2.9));
    assert_eq!(decoder.begin(&track, 30, 30), turn(0, false, true, s(7.0)));
    assert_eq!(decoder.lookahead, None, "the frames of the clip before go");
    assert_eq!(decoder.begin(&track, 75, 30), turn(1, true, true, s(0.5)));
    let before = decoder;
    assert_eq!(decoder.begin(&track, 100, 30), Turn::Nothing);
    assert_eq!(decoder, before);
    assert_eq!(clip_under_frame(&track, 45, 30), Some((1, s(0.5))));
}

#[test]
fn never_more_buffers_than_the_cap_are_made() {
    let mut buffers = Buffers::new();
    assert_eq!(buffers.take(), Buffer::Own, "the layout is not known");
    buffers.learn();
    let mut made = 1;
    while buffers.take() == Buffer::Fresh {
        made += 1;
    }
    assert_eq!(made, TRANSFER_BUFFERS);
    buffers.recycle();
    assert_eq!(buffers.take(), Buffer::Pooled);
    assert_eq!(buffers.take(), Buffer::Own);
}

#[test]
fn the_sound_of_a_clip_is_cut_or_padded_to_its_length() {
    assert_eq!(sound_frames(s(1.0), 48_000), 48_000);
    assert_eq!(sound_frames(s(0.5) + 7_350, 48_000), 24_001, "to the nearest");
    let mut long = ClipSound::new(100);
    assert_eq!((long.keep(60), long.keep(60), long.keep(60)), (60, 40, 0));
    assert!(!long.wants_more());
    assert_eq!(long.silence(), 0);
    let mut short = ClipSound::new(100);
    assert_eq!(short.keep(30), 30);
    assert!(short.wants_more());
    assert_eq!(short.silence(), 70);
}

#[test]
fn the_writer_gets_every_frame_in_order() {
    let mut pending = Pending::new();
    let mut sent: Vec<i64> = (0..5).filter_map(|i| pending.queue(i)).collect();
    sent.extend(pending.flush());
    assert_eq!(sent, [0, 1, 2, 3, 4]);
    assert_eq!(pending.flush(), None);
}

#[test]
fn the_first_failure_of_the_chain_is_told() {
    assert_eq!(failed_part(true, true, true), Some(Part::Render));
    assert_eq!(failed_part(false, true, true), Some(Part::Decode));
    assert_eq!(failed_part(false, false, true), Some(Part::Write));
    assert_eq!(failed_part(false, false, false), None);
}
