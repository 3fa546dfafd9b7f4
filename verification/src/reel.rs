//! The Reel export: which frame of which clip each output frame shows, how
//! the sound of each clip is cut or padded, and what is told when it fails.
//! Three threads overlap around it: one decodes the clips in timeline order
//! and keeps a bounded queue of frames, one uploads, renders and reads back,
//! and one encodes and muxes.

use crate::crop::{Crop, CropRect};
use crate::project::Project;
use crate::text::{decimal, write_decimal};
use crate::timeline::{run_length, under, Clip, Track, TICKS};
use vstd::prelude::*;
use vstd::string::*;

verus! {

/// The Reel width.
pub const WIDTH: u32 = 1080;

/// The Reel height.
pub const HEIGHT: u32 = 1920;

/// How many decoded frames wait for the render.
pub const DECODE_QUEUE: usize = 3;

/// How many rendered frames wait for the encoder.
pub const ENCODE_QUEUE: usize = 4;

/// How many transfer buffers the decode thread keeps in flight, so no frame
/// pays for fresh pages once the pool is warm.
pub const TRANSFER_BUFFERS: usize = 6;

/// The output frame rate for a source rate rounded to a whole number.
pub open spec fn rate_spec(rounded: int) -> u32 {
    if rounded == 24 || rounded == 25 || rounded == 30 || rounded == 60 {
        rounded as u32
    } else {
        30
    }
}

/// The output frame rate for a source rate, which is given rounded to a whole
/// number: 24, 25, 30 or 60 when the source is one of those, else 30.
pub fn output_rate(rounded: i64) -> (r: u32)
    ensures
        r == rate_spec(rounded as int),
        r == 24 || r == 25 || r == 30 || r == 60,
{
    if rounded == 24 || rounded == 25 || rounded == 30 || rounded == 60 {
        rounded as u32
    } else {
        30
    }
}

/// How many frames a track of so many ticks has: as many as cover it, where
/// a millionth of a frame over is not counted, and at least one.
pub open spec fn frames_spec(duration: int, fps: int) -> int {
    let wanted = 10 * duration * fps - 7056;
    if wanted <= 0 {
        1
    } else {
        (wanted + 10 * TICKS - 1) / (10 * TICKS)
    }
}

/// How many frames a track has at a rate.
pub fn frame_count(duration: i64, fps: u32) -> (r: i64)
    requires
        0 <= duration,
        0 < fps <= 60,
    ensures
        r == frames_spec(duration as int, fps as int),
        r >= 1,
{
    proof {
        assert(0 <= 10 * duration * fps <= 10 * i64::MAX * 60) by (nonlinear_arith)
            requires
                0 <= duration <= i64::MAX,
                0 < fps <= 60,
        ;
    }
    let wanted: i128 = 10 * (duration as i128) * (fps as i128) - 7056;
    if wanted <= 0 {
        1
    } else {
        ((wanted + 10 * (TICKS as i128) - 1) / (10 * (TICKS as i128))) as i64
    }
}

/// When an output frame is shown, in ticks.
pub open spec fn time_of(frame: int, fps: int) -> int {
    frame * TICKS / fps
}

/// Every output frame falls on the track: none before the last is shown after
/// its end.
pub proof fn every_frame_is_on_the_track(duration: int, fps: int, frame: int)
    requires
        0 <= duration,
        fps > 0,
        0 <= frame < frames_spec(duration, fps),
    ensures
        0 <= time_of(frame, fps) <= duration,
{
    let wanted = 10 * duration * fps - 7056;
    if wanted > 0 {
        vstd::arithmetic::div_mod::lemma_fundamental_div_mod(
            wanted + 10 * TICKS - 1,
            10 * TICKS as int,
        );
        let count = frames_spec(duration, fps);
        assert((count - 1) * (10 * TICKS) <= wanted - 1) by (nonlinear_arith)
            requires
                wanted + 10 * TICKS - 1 == 10 * TICKS * count + (wanted + 10 * TICKS - 1) % (10
                    * TICKS as int),
                (wanted + 10 * TICKS - 1) % (10 * TICKS as int) >= 0,
        ;
        assert(frame * TICKS <= duration * fps) by (nonlinear_arith)
            requires
                frame <= count - 1,
                (count - 1) * (10 * TICKS) <= wanted - 1,
                wanted == 10 * duration * fps - 7056,
                TICKS > 0,
        ;
    } else {
        assert(frame == 0);
        assert(frame * TICKS <= duration * fps) by (nonlinear_arith)
            requires
                frame == 0,
                duration >= 0,
                fps > 0,
        ;
    }
    assert(0 <= frame * TICKS / fps <= duration) by (nonlinear_arith)
        requires
            0 <= frame,
            frame * TICKS <= duration * fps,
            TICKS > 0,
            fps > 0,
    ;
}

/// Why an export stops.
#[derive(Clone, Copy, Debug, PartialEq, Eq, Structural)]
pub enum ExportError {
    EmptyTrack,
    NoMedia,
    NoFrame(u64),
}

impl ExportError {
    pub open spec fn message_spec(self) -> Seq<char> {
        match self {
            ExportError::EmptyTrack => "the track is empty"@,
            ExportError::NoMedia => "a clip names no media"@,
            ExportError::NoFrame(frame) => "no frame decoded for frame "@ + decimal(frame as nat),
        }
    }

    pub fn message(&self) -> (r: String)
        ensures
            r@ == self.message_spec(),
    {
        match self {
            ExportError::EmptyTrack => "the track is empty".to_string(),
            ExportError::NoMedia => "a clip names no media".to_string(),
            ExportError::NoFrame(frame) => {
                let mut text: String = "no frame decoded for frame ".to_string();
                let number: String = write_decimal(*frame);
                text.append(number.as_str());
                text
            },
        }
    }
}

/// What is exported of a project.
#[derive(Clone, Copy, Debug)]
pub struct Export {
    /// The media file of the first clip, whose rate and size are the Reel's.
    pub first_media: usize,
    pub fps: u32,
    pub frames: i64,
    /// The crop of the project, or none where it is the whole picture: then
    /// it is the 9:16 crop fitted to the first media file.
    pub crop: Option<Crop>,
}

/// What is exported of a project whose media files have these rates, each
/// rounded to a whole number.
pub fn export(project: &Project, rates: &Vec<i64>) -> (r: Result<Export, ExportError>)
    requires
        run_length(project.track.clips@) <= i64::MAX,
    ensures
        r matches Ok(plan) ==> plan.crop == project.crop.of_video(),
        ({
            let clips = project.track.clips@;
            if clips.len() == 0 {
                r == Err::<Export, ExportError>(ExportError::EmptyTrack)
            } else if clips[0].media >= rates@.len() {
                r == Err::<Export, ExportError>(ExportError::NoMedia)
            } else {
                r matches Ok(plan) && {
                    &&& plan.first_media == clips[0].media
                    &&& plan.fps == rate_spec(rates@[clips[0].media as int] as int)
                    &&& plan.frames == frames_spec(run_length(clips), plan.fps as int)
                    &&& plan.crop == if project.crop.rect.equals(CropRect::full_spec()) {
                        None
                    } else {
                        Some(project.crop)
                    }
                }
            }
        }),
{
    if project.track.clips.len() == 0 {
        return Err(ExportError::EmptyTrack);
    }
    let first: Clip = project.track.clips[0];
    if first.media >= rates.len() {
        return Err(ExportError::NoMedia);
    }
    let fps: u32 = output_rate(rates[first.media]);
    let duration: i64 = project.track.duration();
    proof {
        crate::timeline::run_length_is_not_negative(project.track.clips@);
    }
    Ok(
        Export {
            first_media: first.media,
            fps,
            frames: frame_count(duration, fps),
            crop: if project.crop.rect.is_full() {
                None
            } else {
                Some(project.crop)
            },
        },
    )
}

/// The clip under an output frame and the offset into it.
pub fn clip_under_frame(track: &Track, frame: i64, fps: u32) -> (r: Option<(usize, i64)>)
    requires
        run_length(track.clips@) <= i64::MAX,
        0 < fps <= 60,
        0 <= frame,
        time_of(frame as int, fps as int) <= i64::MAX,
    ensures
        r is Some <==> track.clips@.len() > 0 && time_of(frame as int, fps as int) <= run_length(
            track.clips@,
        ),
        r matches Some((index, offset)) ==> under(
            track.clips@,
            time_of(frame as int, fps as int),
            index as int,
            offset as int,
        ),
{
    proof {
        assert(0 <= frame * TICKS <= i64::MAX * 705_600_000) by (nonlinear_arith)
            requires
                0 <= frame <= i64::MAX,
                TICKS == 705_600_000,
        ;
        assert(frame * TICKS / (fps as int) >= 0) by (nonlinear_arith)
            requires
                0 <= frame * TICKS,
                fps > 0,
        ;
    }
    let time: i64 = ((frame as i128) * (TICKS as i128) / (fps as i128)) as i64;
    track.clip_at(time)
}

/// Where the decode thread stands. The frames themselves are outside; here
/// are their times, in ticks of the media.
#[derive(Clone, Copy, Debug, PartialEq, Eq, Structural)]
pub struct Decoder {
    /// The media file that is open.
    pub open: Option<usize>,
    /// The clip the decoder was sought for.
    pub clip: Option<usize>,
    /// Whether a frame of this clip was sent.
    pub sent: bool,
    /// The frame decoded last, while it is not known to be due.
    pub lookahead: Option<i64>,
    /// The frame that is due and was not sent.
    pub unsent: Option<i64>,
}

/// What an output frame needs before its frames are decoded.
#[derive(Clone, Copy, Debug, PartialEq, Eq, Structural)]
pub enum Turn {
    /// No clip is under it: the frame before serves again.
    Nothing,
    Frame {
        media: usize,
        /// Whether the media file is opened anew.
        open: bool,
        /// Whether the decoder is sought to `wanted`.
        seek: bool,
        /// The time of the media that is shown.
        wanted: i64,
    },
}

/// One step towards the frame that is due.
#[derive(Clone, Copy, Debug, PartialEq, Eq, Structural)]
pub enum Step {
    /// The lookahead is due: it is the one to send, and what was due before it
    /// is dropped.
    Take,
    /// The next frame is decoded.
    Ask,
    /// The lookahead is past the wanted time.
    Stop,
}

/// What is sent for an output frame.
#[derive(Clone, Copy, Debug, PartialEq, Eq, Structural)]
pub enum Message {
    /// The frame that was due.
    Due,
    /// The lookahead: the seek landed after the wanted time, and it is the
    /// first frame there is.
    First,
    /// Nothing: the frame before serves again.
    Again,
}

impl Decoder {
    pub fn new() -> (r: Decoder)
        ensures
            r == (Decoder { open: None, clip: None, sent: false, lookahead: None, unsent: None }),
    {
        Decoder { open: None, clip: None, sent: false, lookahead: None, unsent: None }
    }

    /// Begins an output frame that shows `clip`, the clip at `index`, at
    /// `offset`. A clip other than the one before opens its media unless that
    /// is open, seeks, and lets every frame of the clip before go.
    pub open spec fn begun(self, index: usize, clip: Clip) -> Decoder {
        if self.clip == Some(index) {
            self
        } else {
            Decoder {
                open: Some(clip.media),
                clip: Some(index),
                sent: false,
                lookahead: None,
                unsent: None,
            }
        }
    }

    /// Begins an output frame.
    pub fn begin(&mut self, track: &Track, frame: i64, fps: u32) -> (r: Turn)
        requires
            run_length(track.clips@) <= i64::MAX,
            0 < fps <= 60,
            0 <= frame,
            time_of(frame as int, fps as int) <= i64::MAX,
        ensures
            ({
                let time = time_of(frame as int, fps as int);
                if track.clips@.len() > 0 && time <= run_length(track.clips@) {
                    exists|index: usize, offset: i64|
                        {
                            let clip = track.clips@[index as int];
                            &&& #[trigger] under(
                                track.clips@,
                                time,
                                index as int,
                                offset as int,
                            )
                            &&& *final(self) == old(self).begun(index, clip)
                            &&& r matches Turn::Frame { media, open, seek, wanted } && {
                                &&& media == clip.media
                                &&& wanted == clip.source_in + offset
                                &&& wanted == crate::timeline::media_time(clip, offset as int)
                                &&& seek == (old(self).clip != Some(index))
                                &&& open == (seek && old(self).open != Some(clip.media))
                            }
                        }
                } else {
                    r == Turn::Nothing && *final(self) == *old(self)
                }
            }),
    {
        match clip_under_frame(track, frame, fps) {
            None => Turn::Nothing,
            Some((index, offset)) => {
                let clip: Clip = track.clips[index];
                let wanted: i64 = clip.source_in + offset;
                let seek: bool = match self.clip {
                    Some(at) => at != index,
                    None => true,
                };
                let mut open: bool = false;
                if seek {
                    open = match self.open {
                        Some(media) => media != clip.media,
                        None => true,
                    };
                    self.open = Some(clip.media);
                    self.clip = Some(index);
                    self.sent = false;
                    self.lookahead = None;
                    self.unsent = None;
                }
                assert(under(
                    track.clips@,
                    time_of(frame as int, fps as int),
                    index as int,
                    offset as int,
                ));
                Turn::Frame { media: clip.media, open, seek, wanted }
            },
        }
    }

    /// One step towards the last frame that is due by a time.
    pub open spec fn advanced(self, limit: int) -> (Step, Decoder) {
        match self.lookahead {
            None => (Step::Ask, self),
            Some(at) => if at <= limit {
                (Step::Take, Decoder { lookahead: None, unsent: Some(at), ..self })
            } else {
                (Step::Stop, self)
            },
        }
    }

    /// What is sent at the end of an output frame.
    pub open spec fn served(self) -> (Message, Decoder) {
        if self.unsent is Some {
            (Message::Due, Decoder { unsent: None, sent: true, ..self })
        } else if !self.sent && self.lookahead is Some {
            (Message::First, Decoder { lookahead: None, sent: true, ..self })
        } else {
            (Message::Again, self)
        }
    }

    /// One step towards the frame that is due at `wanted`, where a frame is
    /// due up to `half` of its length early.
    pub fn advance(&mut self, wanted: i64, half: i64) -> (r: Step)
        ensures
            (r, *final(self)) == old(self).advanced(wanted + half),
            match old(self).lookahead {
                None => r == Step::Ask && *final(self) == *old(self),
                Some(at) => if at <= wanted + half {
                    r == Step::Take && *final(self) == (Decoder {
                        lookahead: None,
                        unsent: Some(at),
                        ..*old(self)
                    })
                } else {
                    r == Step::Stop && *final(self) == *old(self)
                },
            },
    {
        match self.lookahead {
            None => Step::Ask,
            Some(at) => {
                if (at as i128) <= (wanted as i128) + (half as i128) {
                    self.unsent = Some(at);
                    self.lookahead = None;
                    Step::Take
                } else {
                    Step::Stop
                }
            },
        }
    }

    /// The decoder gave a frame, or none at the end of the media. True while
    /// there is one to look at.
    pub fn decoded(&mut self, at: Option<i64>) -> (r: bool)
        requires
            old(self).lookahead is None,
        ensures
            r == (at is Some),
            *final(self) == (Decoder { lookahead: at, ..*old(self) }),
    {
        self.lookahead = at;
        at.is_some()
    }

    /// Ends the output frame: what is sent for it.
    pub fn serve(&mut self) -> (r: Message)
        ensures
            (r, *final(self)) == old(self).served(),
            match (old(self).unsent, old(self).sent, old(self).lookahead) {
                (Some(_), _, _) => r == Message::Due && *final(self) == (Decoder {
                    unsent: None,
                    sent: true,
                    ..*old(self)
                }),
                (None, false, Some(_)) => r == Message::First && *final(self) == (Decoder {
                    lookahead: None,
                    sent: true,
                    ..*old(self)
                }),
                _ => r == Message::Again && *final(self) == *old(self),
            },
    {
        if self.unsent.is_some() {
            self.unsent = None;
            self.sent = true;
            Message::Due
        } else if !self.sent && self.lookahead.is_some() {
            self.lookahead = None;
            self.sent = true;
            Message::First
        } else {
            Message::Again
        }
    }
}

/// Where the steps of an output frame end: the decoder takes the step
/// [`Decoder::advance`] tells until it stops, and `rest` is what the media has
/// yet to give it.
pub open spec fn settled(decoder: Decoder, rest: Seq<i64>, limit: int) -> (Decoder, Seq<i64>)
    decreases rest.len(), (if decoder.lookahead is Some {
        1int
    } else {
        0int
    }),
{
    let (step, after) = decoder.advanced(limit);
    match step {
        Step::Take => settled(after, rest, limit),
        Step::Stop => (decoder, rest),
        Step::Ask => if rest.len() == 0 {
            (decoder, rest)
        } else {
            settled(Decoder { lookahead: Some(rest[0]), ..decoder }, rest.skip(1), limit)
        },
    }
}

/// The frames in front of a decoder, in order.
pub open spec fn ahead(decoder: Decoder, rest: Seq<i64>) -> Seq<i64> {
    match decoder.lookahead {
        Some(at) => seq![at] + rest,
        None => rest,
    }
}

/// How many frames in front are due by a time.
pub open spec fn due_by(frames: Seq<i64>, limit: int) -> int
    decreases frames.len(),
{
    if frames.len() == 0 || frames[0] > limit {
        0
    } else {
        1 + due_by(frames.skip(1), limit)
    }
}

/// The frame an output frame shows is the last in front of the decoder that
/// is due, the ones before it are dropped, and the first that is not due stays
/// for the next output frame. Where none is due the frame before stays.
pub proof fn the_last_frame_that_is_due_is_shown(decoder: Decoder, rest: Seq<i64>, limit: int)
    ensures
        ({
            let frames = ahead(decoder, rest);
            let count = due_by(frames, limit);
            let (after, left) = settled(decoder, rest, limit);
            &&& 0 <= count <= frames.len()
            &&& after.unsent == if count > 0 {
                Some(frames[count - 1])
            } else {
                decoder.unsent
            }
            &&& ahead(after, left) == frames.skip(count)
            &&& after.lookahead matches Some(at) ==> at > limit
            &&& after.lookahead is None ==> left.len() == 0
            &&& after.open == decoder.open
            &&& after.clip == decoder.clip
            &&& after.sent == decoder.sent
        }),
    decreases rest.len(), (if decoder.lookahead is Some {
        1int
    } else {
        0int
    }),
{
    let frames = ahead(decoder, rest);
    match decoder.lookahead {
        Some(at) => {
            if at <= limit {
                let taken = Decoder { lookahead: None, unsent: Some(at), ..decoder };
                the_last_frame_that_is_due_is_shown(taken, rest, limit);
                assert(frames.skip(1) =~= rest);
                let count = due_by(frames, limit);
                assert(frames.skip(count) =~= rest.skip(count - 1));
            } else {
                assert(frames.skip(0) =~= frames);
            }
        },
        None => {
            if rest.len() > 0 {
                let asked = Decoder { lookahead: Some(rest[0]), ..decoder };
                the_last_frame_that_is_due_is_shown(asked, rest.skip(1), limit);
                assert(seq![rest[0]] + rest.skip(1) =~= rest);
            } else {
                assert(frames.skip(0) =~= frames);
            }
        },
    }
}

/// The transfer buffers of the decode thread.
#[derive(Clone, Copy, Debug, PartialEq, Eq, Structural)]
pub struct Buffers {
    /// How many came back and wait.
    pub pooled: usize,
    /// Whether the layout of a frame is known.
    pub known: bool,
    /// How many were made.
    pub allocated: usize,
}

/// Where the next frame is decoded to.
#[derive(Clone, Copy, Debug, PartialEq, Eq, Structural)]
pub enum Buffer {
    Pooled,
    Fresh,
    Own,
}

impl Buffers {
    /// Never more than the cap are made.
    pub open spec fn wf(self) -> bool {
        self.allocated <= TRANSFER_BUFFERS && (!self.known ==> self.allocated == 0)
    }

    pub fn new() -> (r: Buffers)
        ensures
            r == (Buffers { pooled: 0, known: false, allocated: 0 }),
            r.wf(),
    {
        Buffers { pooled: 0, known: false, allocated: 0 }
    }

    /// A buffer came back from the render thread.
    pub fn recycle(&mut self)
        requires
            old(self).wf(),
            old(self).pooled < usize::MAX,
        ensures
            final(self).wf(),
            *final(self) == (Buffers { pooled: (old(self).pooled + 1) as usize, ..*old(self) }),
    {
        self.pooled = self.pooled + 1;
    }

    /// The buffer of the next frame, and what is left.
    pub open spec fn taken(self) -> (Buffer, Buffers) {
        if self.pooled > 0 {
            (Buffer::Pooled, Buffers { pooled: (self.pooled - 1) as usize, ..self })
        } else if self.known && self.allocated < TRANSFER_BUFFERS {
            (Buffer::Fresh, Buffers { allocated: (self.allocated + 1) as usize, ..self })
        } else {
            (Buffer::Own, self)
        }
    }

    /// The buffer of the next frame: one that came back, or a fresh one of
    /// the known layout up to the cap, or the decoder's own.
    pub fn take(&mut self) -> (r: Buffer)
        requires
            old(self).wf(),
        ensures
            (r, *final(self)) == old(self).taken(),
            final(self).wf(),
            if old(self).pooled > 0 {
                r == Buffer::Pooled && *final(self) == (Buffers {
                    pooled: (old(self).pooled - 1) as usize,
                    ..*old(self)
                })
            } else if old(self).known && old(self).allocated < TRANSFER_BUFFERS {
                r == Buffer::Fresh && *final(self) == (Buffers {
                    allocated: (old(self).allocated + 1) as usize,
                    ..*old(self)
                })
            } else {
                r == Buffer::Own && *final(self) == *old(self)
            },
    {
        if self.pooled > 0 {
            self.pooled = self.pooled - 1;
            Buffer::Pooled
        } else if self.known && self.allocated < TRANSFER_BUFFERS {
            self.allocated = self.allocated + 1;
            Buffer::Fresh
        } else {
            Buffer::Own
        }
    }

    /// A frame came in a transfer buffer: the first of them tells the layout,
    /// and counts as made.
    pub fn learn(&mut self)
        requires
            old(self).wf(),
        ensures
            final(self).wf(),
            *final(self) == if old(self).known {
                *old(self)
            } else {
                Buffers { known: true, allocated: 1, ..*old(self) }
            },
    {
        if !self.known {
            self.known = true;
            self.allocated = 1;
        }
    }
}

/// How many frames of sound a span of so many ticks has, to the nearest.
pub open spec fn sound_spec(duration: int, rate: int) -> int {
    (2 * duration * rate + TICKS) / (2 * TICKS)
}

/// How many frames of sound a clip has.
pub fn sound_frames(duration: i64, rate: u32) -> (r: usize)
    requires
        0 <= duration,
        sound_spec(duration as int, rate as int) <= usize::MAX,
    ensures
        r == sound_spec(duration as int, rate as int),
{
    proof {
        assert(0 <= 2 * duration * rate <= 2 * i64::MAX * u32::MAX) by (nonlinear_arith)
            requires
                0 <= duration <= i64::MAX,
                0 <= rate <= u32::MAX,
        ;
    }
    ((2 * (duration as i128) * (rate as i128) + (TICKS as i128)) / (2 * (TICKS as i128))) as usize
}

/// The sound of one clip while it is written, counted in frames of sound.
#[derive(Clone, Copy, Debug, PartialEq, Eq, Structural)]
pub struct ClipSound {
    pub wanted: usize,
    pub written: usize,
}

/// How much of a chunk is kept.
pub open spec fn kept(wanted: int, written: int, chunk: int) -> int {
    if chunk < wanted - written {
        chunk
    } else {
        wanted - written
    }
}

impl ClipSound {
    /// Never more than wanted is written.
    pub open spec fn wf(self) -> bool {
        self.written <= self.wanted
    }

    pub fn new(wanted: usize) -> (r: ClipSound)
        ensures
            r == (ClipSound { wanted, written: 0 }),
            r.wf(),
    {
        ClipSound { wanted, written: 0 }
    }

    /// Whether more is read of the clip.
    pub fn wants_more(&self) -> (r: bool)
        ensures
            r == (self.written < self.wanted),
    {
        self.written < self.wanted
    }

    /// A chunk of so many frames came: how many of them are written.
    pub fn keep(&mut self, chunk: usize) -> (r: usize)
        requires
            old(self).wf(),
        ensures
            final(self).wf(),
            r == kept(old(self).wanted as int, old(self).written as int, chunk as int),
            final(self).wanted == old(self).wanted,
            final(self).written == old(self).written + r,
    {
        let left: usize = self.wanted - self.written;
        let keep: usize = if chunk < left {
            chunk
        } else {
            left
        };
        self.written = self.written + keep;
        keep
    }

    /// How many frames of silence follow what was written.
    pub fn silence(&self) -> (r: usize)
        requires
            self.wf(),
        ensures
            r == self.wanted - self.written,
    {
        self.wanted - self.written
    }
}

/// What is written of a clip after its chunks came.
pub open spec fn written_of(wanted: int, chunks: Seq<nat>) -> int
    decreases chunks.len(),
{
    if chunks.len() == 0 {
        0
    } else {
        let before = written_of(wanted, chunks.drop_last());
        before + kept(wanted, before, chunks.last() as int)
    }
}

/// The sound of the chunks together.
pub open spec fn sum_of(chunks: Seq<nat>) -> int
    decreases chunks.len(),
{
    if chunks.len() == 0 {
        0
    } else {
        sum_of(chunks.drop_last()) + chunks.last()
    }
}

/// The sound of a clip is cut to the clip's exact length, and where it is
/// shorter all of it is written and silence pads the rest.
pub proof fn the_sound_of_a_clip_has_its_length(wanted: nat, chunks: Seq<nat>)
    ensures
        0 <= written_of(wanted as int, chunks) <= wanted,
        written_of(wanted as int, chunks) == if sum_of(chunks) < wanted {
            sum_of(chunks)
        } else {
            wanted as int
        },
    decreases chunks.len(),
{
    if chunks.len() > 0 {
        the_sound_of_a_clip_has_its_length(wanted, chunks.drop_last());
    }
}

/// The frame whose bytes are on their way back from the GPU. Its bytes are
/// ready once the next frame is queued behind it, so the wait overlaps the
/// GPU's work.
#[derive(Clone, Copy, Debug, PartialEq, Eq, Structural)]
pub struct Pending {
    pub frame: Option<i64>,
}

impl Pending {
    pub fn new() -> (r: Pending)
        ensures
            r == (Pending { frame: None }),
    {
        Pending { frame: None }
    }

    /// A frame was queued: the frame before it goes to the writer.
    pub fn queue(&mut self, frame: i64) -> (r: Option<i64>)
        ensures
            r == old(self).frame,
            final(self).frame == Some(frame),
    {
        let before: Option<i64> = self.frame;
        self.frame = Some(frame);
        before
    }

    /// No frame follows: the last one goes to the writer.
    pub fn flush(&mut self) -> (r: Option<i64>)
        ensures
            r == old(self).frame,
            final(self).frame is None,
    {
        let before: Option<i64> = self.frame;
        self.frame = None;
        before
    }
}

/// What the writer got, and what is pending, once the frames before `count`
/// were queued one after another.
pub open spec fn queued(count: nat) -> (Seq<i64>, Pending)
    decreases count,
{
    if count == 0 {
        (Seq::empty(), Pending { frame: None })
    } else {
        let (sent, pending) = queued((count - 1) as nat);
        let now = Pending { frame: Some((count - 1) as i64) };
        match pending.frame {
            Some(before) => (sent.push(before), now),
            None => (sent, now),
        }
    }
}

/// The writer gets every frame once, in order, the last one when the export
/// ends.
pub proof fn the_writer_gets_every_frame_in_order(count: nat)
    requires
        0 < count <= i64::MAX,
    ensures
        queued(count).0 == Seq::new((count - 1) as nat, |i: int| i as i64),
        queued(count).1.frame == Some((count - 1) as i64),
    decreases count,
{
    if count > 1 {
        the_writer_gets_every_frame_in_order((count - 1) as nat);
        assert(Seq::new((count - 2) as nat, |i: int| i as i64).push((count - 2) as i64)
            =~= Seq::new((count - 1) as nat, |i: int| i as i64));
    } else {
        reveal_with_fuel(queued, 2);
        assert(Seq::new(0, |i: int| i as i64) =~= Seq::<i64>::empty());
    }
}

/// The part of an export whose failure is told.
#[derive(Clone, Copy, Debug, PartialEq, Eq, Structural)]
pub enum Part {
    Render,
    Decode,
    Write,
}

/// Which failure is told.
pub open spec fn told(render: bool, decode: bool, write: bool) -> Option<Part> {
    if render {
        Some(Part::Render)
    } else if decode {
        Some(Part::Decode)
    } else if write {
        Some(Part::Write)
    } else {
        None
    }
}

/// Which failure is told when several parts failed: the render's before the
/// decoder's before the writer's.
pub fn failed_part(render: bool, decode: bool, write: bool) -> (r: Option<Part>)
    ensures
        r == told(render, decode, write),
        r == if render {
            Some(Part::Render)
        } else if decode {
            Some(Part::Decode)
        } else if write {
            Some(Part::Write)
        } else {
            None
        },
{
    if render {
        Some(Part::Render)
    } else if decode {
        Some(Part::Decode)
    } else if write {
        Some(Part::Write)
    } else {
        None
    }
}

/// A source at one of the four rates is exported at its own, and any other at
/// thirty.
pub proof fn a_known_rate_is_kept(rounded: int)
    ensures
        rounded == 24 || rounded == 25 || rounded == 30 || rounded == 60 ==> rate_spec(rounded)
            == rounded,
        rounded != 24 && rounded != 25 && rounded != 60 ==> rate_spec(rounded) == 30,
{
}

/// A track has as many frames as cover it and no more: one frame fewer would
/// end before the track does, by more than a millionth of a frame, and the
/// last frame ends no earlier than that. A track always has one.
pub proof fn the_frames_cover_the_track(duration: int, fps: int)
    requires
        0 <= duration,
        0 < fps,
    ensures
        frames_spec(duration, fps) >= 1,
        10 * (frames_spec(duration, fps) * TICKS) >= 10 * duration * fps - 7056,
        frames_spec(duration, fps) > 1 ==> 10 * ((frames_spec(duration, fps) - 1) * TICKS) < 10
            * duration * fps - 7056,
        1_000_000 * 7056 == 10 * TICKS,
{
    let wanted = 10 * duration * fps - 7056;
    if wanted > 0 {
        let count = frames_spec(duration, fps);
        vstd::arithmetic::div_mod::lemma_fundamental_div_mod(
            wanted + 10 * TICKS - 1,
            10 * TICKS as int,
        );
        assert((10 * TICKS) * count == 10 * (count * TICKS) && 10 * ((count - 1) * TICKS) == 10 * (
        count * TICKS) - 10 * TICKS) by (nonlinear_arith);
        assert(count >= 1) by (nonlinear_arith)
            requires
                wanted + 10 * TICKS - 1 == (10 * TICKS) * count + (wanted + 10 * TICKS - 1) % (10
                    * TICKS as int),
                (wanted + 10 * TICKS - 1) % (10 * TICKS as int) < 10 * TICKS,
                wanted > 0,
                TICKS > 0,
        ;
    }
}

/// A track of a whole number of frames has that many.
pub proof fn a_track_of_whole_frames_has_that_many(count: int, fps: int)
    requires
        1 <= count,
        fps == 24 || fps == 25 || fps == 30 || fps == 60,
    ensures
        frames_spec(count * (TICKS as int / fps), fps) == count,
{
    let duration = count * (TICKS as int / fps);
    crate::timeline::a_second_is_whole_in_every_rate(fps);
    vstd::arithmetic::div_mod::lemma_fundamental_div_mod(TICKS as int, fps);
    assert(duration * fps == count * TICKS) by (nonlinear_arith)
        requires
            duration == count * (TICKS as int / fps),
            TICKS == fps * (TICKS as int / fps),
    ;
    assert(10 * duration * fps == 10 * (duration * fps)) by (nonlinear_arith);
    let wanted = 10 * duration * fps - 7056;
    assert(count * TICKS >= TICKS) by (nonlinear_arith)
        requires
            count >= 1,
            TICKS > 0,
    ;
    assert(wanted + 10 * TICKS - 1 == (10 * TICKS) * count + (10 * TICKS - 7057))
        by (nonlinear_arith)
        requires
            wanted == 10 * (count * TICKS) - 7056,
    ;
    vstd::arithmetic::div_mod::lemma_fundamental_div_mod_converse(
        wanted + 10 * TICKS - 1,
        10 * TICKS as int,
        count,
        10 * TICKS - 7057,
    );
}

/// A frame is shown at its share of the seconds, cut to a whole tick: never
/// late, and less than a tick early.
pub proof fn a_frame_is_shown_at_its_time(frame: int, fps: int)
    requires
        0 <= frame,
        0 < fps,
    ensures
        time_of(frame, fps) * fps <= frame * TICKS,
        frame * TICKS < (time_of(frame, fps) + 1) * fps,
        time_of(0, fps) == 0,
{
    vstd::arithmetic::div_mod::lemma_fundamental_div_mod(frame * TICKS, fps);
    let t = time_of(frame, fps);
    assert(fps * t == t * fps && (t + 1) * fps == t * fps + fps) by (nonlinear_arith);
    assert(0 * TICKS == 0) by (nonlinear_arith);
    vstd::arithmetic::div_mod::lemma_div_basics(fps);
}

/// The frames that are due are all those up to the first that is not.
pub proof fn the_due_frames_are_due(frames: Seq<i64>, limit: int, i: int)
    ensures
        0 <= due_by(frames, limit) <= frames.len(),
        0 <= i < due_by(frames, limit) ==> frames[i] <= limit,
        due_by(frames, limit) < frames.len() ==> frames[due_by(frames, limit)] > limit,
    decreases frames.len(),
{
    if frames.len() > 0 && frames[0] <= limit {
        the_due_frames_are_due(frames.skip(1), limit, i - 1);
        if 0 < i < due_by(frames, limit) {
            assert(frames.skip(1)[i - 1] == frames[i]);
        }
    }
}

/// Another clip starts the decoder afresh on its media, and the same clip goes
/// on where it was.
pub proof fn another_clip_starts_afresh(decoder: Decoder, index: usize, clip: Clip)
    ensures
        decoder.clip == Some(index) ==> decoder.begun(index, clip) == decoder,
        decoder.clip != Some(index) ==> ({
            let now = decoder.begun(index, clip);
            &&& now.clip == Some(index) && now.open == Some(clip.media)
            &&& !now.sent && now.lookahead is None && now.unsent is None
        }),
{
}

/// A span has the nearest whole number of frames of sound: half a frame off at
/// most.
pub proof fn a_span_has_the_nearest_sound(duration: int, rate: int)
    requires
        0 <= duration,
        0 <= rate,
    ensures
        2 * (sound_spec(duration, rate) * TICKS - duration * rate) <= TICKS,
        2 * (duration * rate - sound_spec(duration, rate) * TICKS) <= TICKS,
{
    let top = 2 * duration * rate + TICKS;
    let count = sound_spec(duration, rate);
    vstd::arithmetic::div_mod::lemma_fundamental_div_mod(top, 2 * TICKS as int);
    assert(2 * duration * rate == 2 * (duration * rate)) by (nonlinear_arith);
    assert((2 * TICKS) * count == 2 * (count * TICKS)) by (nonlinear_arith);
}

/// A chunk is kept whole while there is room for it, and cut to the room that
/// is left.
pub proof fn a_chunk_is_cut_to_the_room(wanted: int, written: int, chunk: int)
    requires
        0 <= written <= wanted,
        0 <= chunk,
    ensures
        written + chunk <= wanted ==> kept(wanted, written, chunk) == chunk,
        written + chunk >= wanted ==> written + kept(wanted, written, chunk) == wanted,
{
}

/// Chunks add up one by one.
pub proof fn chunks_add_up(chunks: Seq<nat>, chunk: nat)
    ensures
        sum_of(Seq::empty()) == 0,
        sum_of(chunks.push(chunk)) == sum_of(chunks) + chunk,
{
    assert(chunks.push(chunk).drop_last() =~= chunks);
}

/// A frame that is due by the time is taken in place of the one before it, one
/// that is not due stays for the next output frame, and without one the next
/// is asked for.
pub proof fn a_frame_is_taken_when_it_is_due(decoder: Decoder, limit: int)
    ensures
        decoder.lookahead is None ==> decoder.advanced(limit) == (Step::Ask, decoder),
        decoder.lookahead matches Some(at) ==> {
            &&& at <= limit ==> decoder.advanced(limit).0 == Step::Take && decoder.advanced(
                limit,
            ).1.unsent == Some(at) && decoder.advanced(limit).1.lookahead is None
                && decoder.advanced(limit).1.clip == decoder.clip
            &&& at > limit ==> decoder.advanced(limit) == (Step::Stop, decoder)
        },
{
}

/// An output frame shows the frame that was due; the first of a clip shows
/// what there is though it is not due yet; any other shows the frame before
/// again. Nothing is sent twice.
pub proof fn an_output_frame_shows_what_was_due(decoder: Decoder)
    ensures
        decoder.unsent is Some ==> decoder.served().0 == Message::Due,
        decoder.unsent is None && !decoder.sent && decoder.lookahead is Some ==> decoder.served().0
            == Message::First,
        decoder.unsent is None && (decoder.sent || decoder.lookahead is None) ==> decoder.served()
            == (Message::Again, decoder),
        decoder.served().1.unsent is None,
        decoder.served().0 != Message::Again ==> decoder.served().1.sent,
        decoder.served().1.served().0 == Message::Again,
        decoder.served().0 == Message::Due ==> decoder.served().1.lookahead == decoder.lookahead,
        decoder.served().1.clip == decoder.clip && decoder.served().1.open == decoder.open,
{
}

/// A buffer that came back is used before a fresh one is made, a fresh one is
/// made only while the layout is known and the cap allows it, and else the
/// decoder's own is used.
pub proof fn a_buffer_that_came_back_is_used_first(buffers: Buffers)
    requires
        buffers.wf(),
    ensures
        buffers.pooled > 0 ==> buffers.taken().0 == Buffer::Pooled && buffers.taken().1.pooled
            == buffers.pooled - 1 && buffers.taken().1.allocated == buffers.allocated,
        buffers.pooled == 0 && !buffers.known ==> buffers.taken() == (Buffer::Own, buffers),
        buffers.pooled == 0 && buffers.known && buffers.allocated < TRANSFER_BUFFERS
            ==> buffers.taken().0 == Buffer::Fresh && buffers.taken().1.allocated
            == buffers.allocated + 1,
        buffers.pooled == 0 && buffers.allocated >= TRANSFER_BUFFERS ==> buffers.taken() == (
            Buffer::Own,
            buffers,
        ),
        buffers.taken().1.wf(),
{
}

/// A failure is told when there is one, and of several the render's, then the
/// decoder's, then the writer's.
pub proof fn the_first_failure_is_told(render: bool, decode: bool, write: bool)
    ensures
        told(render, decode, write) is Some <==> render || decode || write,
        told(true, decode, write) == Some(Part::Render),
        told(false, true, write) == Some(Part::Decode),
        told(false, false, true) == Some(Part::Write),
{
}

/// A clip's sound is never more than wanted, and no more buffers are made than
/// the cap allows, none before the layout is known.
pub proof fn nothing_goes_over_its_cap(sound: ClipSound, buffers: Buffers)
    ensures
        sound.wf() <==> sound.written <= sound.wanted,
        buffers.wf() ==> buffers.allocated <= TRANSFER_BUFFERS,
        buffers.wf() && !buffers.known ==> buffers.allocated == 0,
        buffers.allocated == 0 ==> buffers.wf(),
{
}

} // verus!
