//! The `--screenshot` path: render without a window and write a PNG. With a
//! photo it runs the same develop graph the Viewer uses. With a video or a
//! project and a time, it renders the frame at that time as the 1080x1920
//! Reel crop. Without a file it renders the test image.

use crate::crop::{Crop, CropRect};
use crate::project::Project;
use crate::text::{decimal, write_decimal};
use crate::timeline::{media_time, run_length, under, Clip};
use vstd::prelude::*;
use vstd::string::*;

verus! {

/// The video screenshot size: the 9:16 Reel.
pub const VIDEO_WIDTH: u32 = 1080;

pub const VIDEO_HEIGHT: u32 = 1920;

/// The screenshot size: the 4:5 feed post at 1080 wide.
pub const WIDTH: u32 = 1080;

pub const HEIGHT: u32 = 1350;

/// A picture of a photo that is written: the photo, the mask that is shown as
/// the red overlay, where it goes and its size.
#[derive(Debug)]
pub struct Shot {
    pub photo: String,
    pub show_mask: Option<String>,
    pub out: String,
    pub width: u32,
    pub height: u32,
}

/// The picture of a photo with no mask shown.
pub fn write_developed(photo: &str, out: &str) -> (r: Shot)
    ensures
        r.photo@ == photo@,
        r.show_mask is None,
        r.out@ == out@,
        r.width == WIDTH,
        r.height == HEIGHT,
{
    write_developed_showing(photo, None, out)
}

/// The picture of a photo with the mask of this name shown as the red
/// overlay.
pub fn write_developed_showing(photo: &str, show_mask: Option<String>, out: &str) -> (r: Shot)
    ensures
        r.photo@ == photo@,
        r.show_mask == show_mask,
        r.out@ == out@,
        r.width == WIDTH,
        r.height == HEIGHT,
{
    Shot {
        photo: photo.to_string(),
        show_mask,
        out: out.to_string(),
        width: WIDTH,
        height: HEIGHT,
    }
}

/// The frame of a project that is written.
#[derive(Clone, Copy, Debug)]
pub struct VideoFrame {
    /// The media file the frame is of.
    pub media: usize,
    /// The time of the media, in ticks.
    pub time: i64,
    /// The crop of the project, or none where it is the whole picture: then
    /// it is the 9:16 crop fitted to the frame.
    pub crop: Option<Crop>,
}

/// Why there is no frame.
#[derive(Clone, Copy, Debug, PartialEq, Eq, Structural)]
pub enum FrameError {
    PastTheEnd,
    NoMedia(usize),
}

impl FrameError {
    pub open spec fn message_spec(self, at: Seq<char>) -> Seq<char> {
        match self {
            FrameError::PastTheEnd => at + " s is past the end of the track"@,
            FrameError::NoMedia(index) => "clip "@ + decimal(index as nat) + " names no media"@,
        }
    }

    /// What is told of a frame that is not there, asked for at a time that
    /// reads `at` in seconds.
    pub fn message(&self, at: &str) -> (r: String)
        ensures
            r@ == self.message_spec(at@),
    {
        match self {
            FrameError::PastTheEnd => {
                let mut text: String = at.to_string();
                text.append(" s is past the end of the track");
                text
            },
            FrameError::NoMedia(index) => {
                let mut text: String = "clip ".to_string();
                let number: String = write_decimal(*index as u64);
                text.append(number.as_str());
                text.append(" names no media");
                text
            },
        }
    }
}

/// The frame of a project at a time of its timeline, in ticks.
pub fn write_video_frame(project: &Project, at: i64) -> (r: Result<VideoFrame, FrameError>)
    requires
        run_length(project.track.clips@) <= i64::MAX,
    ensures
        r matches Ok(frame) ==> frame.crop == project.crop.of_video() && frame.media
            < project.media@.len(),
        r matches Ok(frame) ==> exists|index: int, offset: int| #[trigger]
            under(project.track.clips@, at as int, index, offset) && frame.media
                == project.track.clips@[index].media && frame.time == media_time(
                project.track.clips@[index],
                offset,
            ),
        ({
            let clips = project.track.clips@;
            if clips.len() > 0 && 0 <= at <= run_length(clips) {
                exists|index: usize, offset: i64|
                    {
                        &&& #[trigger] under(clips, at as int, index as int, offset as int)
                        &&& if clips[index as int].media >= project.media@.len() {
                            r == Err::<VideoFrame, FrameError>(FrameError::NoMedia(index))
                        } else {
                            r matches Ok(frame) && {
                                &&& frame.media == clips[index as int].media
                                &&& frame.time == clips[index as int].source_in + offset
                                &&& frame.crop == if project.crop.rect.equals(
                                    CropRect::full_spec(),
                                ) {
                                    None
                                } else {
                                    Some(project.crop)
                                }
                            }
                        }
                    }
            } else {
                r == Err::<VideoFrame, FrameError>(FrameError::PastTheEnd)
            }
        }),
{
    match project.track.clip_at(at) {
        None => Err(FrameError::PastTheEnd),
        Some((index, offset)) => {
            let clip: Clip = project.track.clips[index];
            assert(under(project.track.clips@, at as int, index as int, offset as int));
            if clip.media >= project.media.len() {
                return Err(FrameError::NoMedia(index));
            }
            Ok(
                VideoFrame {
                    media: clip.media,
                    time: clip.source_in + offset,
                    crop: if project.crop.rect.is_full() {
                        None
                    } else {
                        Some(project.crop)
                    },
                },
            )
        },
    }
}

} // verus!
