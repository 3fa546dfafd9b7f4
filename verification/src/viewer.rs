//! The Viewer tab: what it shows, when the develop graph runs, which window a
//! pan is built ahead into, and what the input over the picture means. With
//! nothing open it shows the test image. A video frame goes through the same
//! develop graph as a photo, so the sliders and the crop apply to it.

use crate::crop::CropAspect;
use vstd::prelude::*;

verus! {

/// A size in pixels.
#[derive(Clone, Copy, Debug, PartialEq, Eq, Structural)]
pub struct Size {
    pub width: u32,
    pub height: u32,
}

/// A rectangle of pixels.
#[derive(Clone, Copy, Debug, PartialEq, Eq, Structural)]
pub struct PixelRect {
    pub x: u32,
    pub y: u32,
    pub width: u32,
    pub height: u32,
}

/// A padded window of a zoomed view and what is seen of it.
#[derive(Clone, Copy, Debug, PartialEq, Eq, Structural)]
pub struct ViewWindow {
    pub full: Size,
    pub window: PixelRect,
    pub visible: PixelRect,
}

/// What the develop graph is asked to render.
#[derive(Clone, Copy, Debug, PartialEq, Eq, Structural)]
pub enum Target {
    /// The whole picture at the fitted size: a Fit view.
    Whole(Size),
    /// A padded window of a zoomed view and what is seen of it.
    Window(ViewWindow),
}

impl Target {
    pub open spec fn size_spec(self) -> Size {
        match self {
            Target::Whole(size) => size,
            Target::Window(view) => Size {
                width: view.visible.width,
                height: view.visible.height,
            },
        }
    }

    /// The size of what is shown.
    pub fn output_size(&self) -> (r: Size)
        ensures
            r == self.size_spec(),
    {
        match self {
            Target::Whole(size) => *size,
            Target::Window(view) => Size {
                width: view.visible.width,
                height: view.visible.height,
            },
        }
    }
}

/// What the texture of the tab currently shows.
#[derive(Clone, Copy, Debug, PartialEq, Eq, Structural)]
pub enum Shown {
    Placeholder(Size),
    /// The developed photo at a pixel size, from a given output texture, and
    /// whether the texture is registered with the nearest filter.
    Photo { size: Size, generation: u64, nearest: bool },
}

/// What the tab holds: what its texture shows, the player frame the develop
/// graph holds, and what the graph rendered last, which a pan changes without
/// touching the session.
#[derive(Clone, Copy, Debug, PartialEq, Eq, Structural)]
pub struct Screen {
    pub shown: Shown,
    pub frame_serial: u64,
    pub rendered: Option<Target>,
}

impl Screen {
    /// A tab that shows the test image.
    pub fn new(size: Size) -> (r: Screen)
        ensures
            r == (Screen { shown: Shown::Placeholder(size), frame_serial: 0, rendered: None }),
    {
        Screen { shown: Shown::Placeholder(size), frame_serial: 0, rendered: None }
    }

    /// A photo or a project was opened: the next player frame is new.
    pub fn clear_video(&mut self)
        ensures
            *final(self) == (Screen { frame_serial: 0, ..*old(self) }),
    {
        self.frame_serial = 0;
    }

    /// The player's current frame, if it has one: whether it is uploaded,
    /// which it is when it changed.
    pub fn take_frame(&mut self, serial: Option<u64>) -> (r: bool)
        ensures
            r == (serial matches Some(now) && now != old(self).frame_serial),
            *final(self) == if r {
                Screen { frame_serial: serial.unwrap(), ..*old(self) }
            } else {
                *old(self)
            },
    {
        match serial {
            Some(now) => {
                if now != self.frame_serial {
                    self.frame_serial = now;
                    true
                } else {
                    false
                }
            },
            None => false,
        }
    }

    /// Whether the develop graph runs for a target: not while the tab shows
    /// it already and nothing changed.
    pub open spec fn wants(
        self,
        target: Target,
        generation: u64,
        nearest: bool,
        dirty: bool,
    ) -> bool {
        dirty || self.rendered != Some(target) || self.shown != (Shown::Photo {
            size: target.size_spec(),
            generation,
            nearest,
        })
    }

    /// Whether the develop graph runs for a target.
    pub fn wants_render(
        &self,
        target: Target,
        generation: u64,
        nearest: bool,
        dirty: bool,
    ) -> (r: bool)
        ensures
            r == self.wants(target, generation, nearest, dirty),
    {
        let size: Size = target.output_size();
        let current: Shown = Shown::Photo { size, generation, nearest };
        let same: bool = match self.rendered {
            Some(before) => before == target,
            None => false,
        };
        dirty || !same || self.shown != current
    }

    /// The graph rendered a target: whether its texture is registered anew.
    pub fn show(&mut self, target: Target, generation: u64, nearest: bool) -> (r: bool)
        ensures
            r == (old(self).shown != (Shown::Photo {
                size: target.size_spec(),
                generation,
                nearest,
            })),
            *final(self) == (Screen {
                shown: Shown::Photo { size: target.size_spec(), generation, nearest },
                rendered: Some(target),
                ..*old(self)
            }),
    {
        let size: Size = target.output_size();
        let now: Shown = Shown::Photo { size, generation, nearest };
        self.rendered = Some(target);
        let anew: bool = self.shown != now;
        self.shown = now;
        anew
    }

    /// Shows the test image: whether it is drawn, which it is when its size
    /// changed or a picture was shown.
    pub fn show_placeholder(&mut self, wanted: Size) -> (r: bool)
        ensures
            r == (old(self).shown != Shown::Placeholder(wanted)),
            *final(self) == (Screen { shown: Shown::Placeholder(wanted), ..*old(self) }),
    {
        let now: Shown = Shown::Placeholder(wanted);
        let anew: bool = self.shown != now;
        self.shown = now;
        anew
    }

    /// The window the develop graph holds, for a zoomed view to keep.
    pub fn window_rendered(&self) -> (r: Option<(Size, PixelRect)>)
        ensures
            r == match self.rendered {
                Some(Target::Window(view)) => Some((view.full, view.window)),
                _ => None,
            },
    {
        match self.rendered {
            Some(Target::Window(view)) => Some((view.full, view.window)),
            _ => None,
        }
    }
}

/// The develop graph runs once for a target: shown again with nothing changed
/// it does not run, and a change of the session or of the target runs it.
pub proof fn a_shown_target_is_not_rendered_again(
    screen: Screen,
    target: Target,
    generation: u64,
    nearest: bool,
)
    requires
        screen.rendered == Some(target),
        screen.shown == (Shown::Photo { size: target.size_spec(), generation, nearest }),
    ensures
        !screen.wants(target, generation, nearest, false),
        screen.wants(target, generation, nearest, true),
        forall|other: Target|
            other != target ==> #[trigger] screen.wants(other, generation, nearest, false),
{
}

/// What the tab shows.
#[derive(Clone, Copy, Debug, PartialEq, Eq, Structural)]
pub enum Picture {
    Photo,
    Video,
    Placeholder,
}

/// What the tab shows.
pub open spec fn picture_spec(photo: bool, project: bool, frame: bool) -> Picture {
    if photo {
        Picture::Photo
    } else if project && frame {
        Picture::Video
    } else {
        Picture::Placeholder
    }
}

/// What the tab shows: a photo before a project, whose first frame may not
/// have come yet.
pub fn picture(photo: bool, project: bool, frame: bool) -> (r: Picture)
    ensures
        r == picture_spec(photo, project, frame),
        r == if photo {
            Picture::Photo
        } else if project && frame {
            Picture::Video
        } else {
            Picture::Placeholder
        },
{
    if photo {
        Picture::Photo
    } else if project && frame {
        Picture::Video
    } else {
        Picture::Placeholder
    }
}

/// Where the texture is painted.
#[derive(Clone, Copy, Debug, PartialEq, Eq, Structural)]
pub enum Paint {
    /// Where what is seen of a zoomed picture goes.
    Seen,
    /// Where the whole picture goes.
    Whole,
    /// Fitted to the tab.
    Fitted,
}

/// Where the texture is painted.
pub open spec fn paint_spec(placed: bool, zoomed: bool, picture: bool) -> Paint {
    if placed && picture {
        if zoomed {
            Paint::Seen
        } else {
            Paint::Whole
        }
    } else {
        Paint::Fitted
    }
}

/// Where the texture is painted. Zoomed, it holds only what is seen and goes
/// where that is; otherwise it holds the whole picture, or the test image.
pub fn paint(placed: bool, zoomed: bool, picture: bool) -> (r: Paint)
    ensures
        r == paint_spec(placed, zoomed, picture),
        r == if placed && picture {
            if zoomed {
                Paint::Seen
            } else {
                Paint::Whole
            }
        } else {
            Paint::Fitted
        },
{
    if placed && picture {
        if zoomed {
            Paint::Seen
        } else {
            Paint::Whole
        }
    } else {
        Paint::Fitted
    }
}

/// What is built ahead of a pan.
#[derive(Clone, Copy, Debug, PartialEq, Eq, Structural)]
pub enum Ahead {
    Nothing,
    /// The pan paused, and the frame ahead that is still building goes on.
    Continue { full: Size, window: PixelRect },
    /// The window the pan will reach, from the step it made. `built` is the
    /// one already built or building at this size.
    Plan { full: Size, window: PixelRect, before: PixelRect, built: Option<PixelRect> },
}

pub open spec fn apart(a: u32, b: u32) -> int {
    if a > b {
        a - b
    } else {
        b - a
    }
}

/// A step between two renders that is a pan: the same picture size, and no
/// further than the pad. More is a jump.
pub open spec fn is_pan(before: ViewWindow, now: ViewWindow, pad: (u32, u32)) -> bool {
    &&& before.full == now.full
    &&& apart(before.visible.x, now.visible.x) <= pad.0
    &&& apart(before.visible.y, now.visible.y) <= pad.1
}

/// The window built ahead so far, when it was built at this size.
pub open spec fn built_at(built: Option<(Size, PixelRect)>, full: Size) -> Option<PixelRect> {
    match built {
        Some((size, window)) => if size == full {
            Some(window)
        } else {
            None
        },
        None => None,
    }
}

/// What is built ahead of a pan.
pub open spec fn ahead_spec(
    previous: Option<Target>,
    rendered: Option<Target>,
    pad: (u32, u32),
    built: Option<(Size, PixelRect)>,
    building: bool,
) -> Ahead {
    match (previous, rendered) {
        (Some(Target::Window(before)), Some(Target::Window(now))) => if !is_pan(before, now, pad) {
            Ahead::Nothing
        } else if before.visible != now.visible {
            Ahead::Plan {
                full: now.full,
                window: now.window,
                before: before.visible,
                built: built_at(built, now.full),
            }
        } else {
            match built_at(built, now.full) {
                Some(window) => if building {
                    Ahead::Continue { full: now.full, window }
                } else {
                    Ahead::Nothing
                },
                None => Ahead::Nothing,
            }
        },
        _ => Ahead::Nothing,
    }
}

/// What is built ahead of a pan, from what the render before showed and what
/// this one shows, and the window built ahead so far.
pub fn build_ahead(
    previous: Option<Target>,
    rendered: Option<Target>,
    pad: (u32, u32),
    built: Option<(Size, PixelRect)>,
    building: bool,
) -> (r: Ahead)
    ensures
        r == ahead_spec(previous, rendered, pad, built, building),
        ({
            let at_this_size = |full: Size|
                match built {
                    Some((size, window)) if size == full => Some(window),
                    _ => None,
                };
            match (previous, rendered) {
                (Some(Target::Window(before)), Some(Target::Window(now))) => if !is_pan(
                    before,
                    now,
                    pad,
                ) {
                    r == Ahead::Nothing
                } else if before.visible != now.visible {
                    r == (Ahead::Plan {
                        full: now.full,
                        window: now.window,
                        before: before.visible,
                        built: at_this_size(now.full),
                    })
                } else {
                    match at_this_size(now.full) {
                        Some(window) if building => r == (Ahead::Continue {
                            full: now.full,
                            window,
                        }),
                        _ => r == Ahead::Nothing,
                    }
                },
                _ => r == Ahead::Nothing,
            }
        }),
{
    let (before, now): (ViewWindow, ViewWindow) = match (previous, rendered) {
        (Some(Target::Window(before)), Some(Target::Window(now))) => (before, now),
        _ => {
            return Ahead::Nothing;
        },
    };
    let across: u32 = if before.visible.x > now.visible.x {
        before.visible.x - now.visible.x
    } else {
        now.visible.x - before.visible.x
    };
    let down: u32 = if before.visible.y > now.visible.y {
        before.visible.y - now.visible.y
    } else {
        now.visible.y - before.visible.y
    };
    if before.full != now.full || across > pad.0 || down > pad.1 {
        return Ahead::Nothing;
    }
    let kept: Option<PixelRect> = match built {
        Some((size, window)) => if size == now.full {
            Some(window)
        } else {
            None
        },
        None => None,
    };
    if before.visible != now.visible {
        return Ahead::Plan {
            full: now.full,
            window: now.window,
            before: before.visible,
            built: kept,
        };
    }
    match kept {
        Some(window) => if building {
            Ahead::Continue { full: now.full, window }
        } else {
            Ahead::Nothing
        },
        None => Ahead::Nothing,
    }
}

/// What holds while the input of a frame is read.
#[derive(Clone, Copy, Debug, PartialEq, Eq, Structural)]
pub struct ViewInput {
    pub space: bool,
    pub space_released: bool,
    /// A text field has the focus.
    pub typing: bool,
    /// The Save, Discard, Cancel prompt is up.
    pub prompt: bool,
    /// A brush is in the hand.
    pub armed: bool,
}

/// What the input of a frame may do to the view.
#[derive(Clone, Copy, Debug, PartialEq, Eq, Structural)]
pub struct ViewGate {
    /// A drag with Space held pans.
    pub space_pans: bool,
    /// The note of a Space that panned is forgotten.
    pub forget_space: bool,
    /// The bare picture takes the drag of a pan: not while the prompt is up,
    /// and not with a brush in the hand, which covers the same rectangle and
    /// reports the pans itself.
    pub bare_picture: bool,
    /// The keys, the wheel and a pinch zoom.
    pub zooms: bool,
}

impl ViewInput {
    /// What the input may do to the view.
    pub open spec fn may(self) -> ViewGate {
        ViewGate {
            space_pans: self.space && !self.typing && !self.prompt,
            forget_space: !self.space && !self.space_released,
            bare_picture: !self.armed && !self.prompt,
            zooms: !self.prompt,
        }
    }
}

/// What the input of a frame may do to the view. None of it runs while the
/// prompt is up.
pub fn view_gate(input: ViewInput) -> (r: ViewGate)
    ensures
        r == input.may(),
        r.space_pans == (input.space && !input.typing && !input.prompt),
        r.forget_space == (!input.space && !input.space_released),
        r.bare_picture == (!input.armed && !input.prompt),
        r.zooms == !input.prompt,
{
    ViewGate {
        space_pans: input.space && !input.typing && !input.prompt,
        forget_space: !input.space && !input.space_released,
        bare_picture: !input.armed && !input.prompt,
        zooms: !input.prompt,
    }
}

/// The view key that is acted on.
pub open spec fn request_spec<T>(prompt: bool, asked: Option<T>, pressed: Option<T>) -> Option<T> {
    if prompt {
        None
    } else if asked is Some {
        asked
    } else {
        pressed
    }
}

/// The view key that is acted on: the one a button asked for before the one
/// that was pressed, and none while the prompt is up.
pub fn view_request<T>(prompt: bool, asked: Option<T>, pressed: Option<T>) -> (r: Option<T>)
    ensures
        r == request_spec(prompt, asked, pressed),
        r == if prompt {
            None
        } else if asked is Some {
            asked
        } else {
            pressed
        },
{
    if prompt {
        None
    } else if asked.is_some() {
        asked
    } else {
        pressed
    }
}

/// The guide drawn over the crop.
#[derive(Clone, Copy, Debug, PartialEq, Eq, Structural)]
pub enum Guide {
    /// The bands the interface of a story covers.
    SafeZone,
    /// The centred 3:4 crop the profile grid shows of a 4:5 post.
    Grid,
    Nothing,
}

/// The guide drawn over a crop.
pub open spec fn guide_spec(aspect: CropAspect, grid_guide: bool) -> Guide {
    match aspect {
        CropAspect::Story9x16 => Guide::SafeZone,
        CropAspect::Feed4x5 => if grid_guide {
            Guide::Grid
        } else {
            Guide::Nothing
        },
        _ => Guide::Nothing,
    }
}

/// The guide drawn over a crop: the safe zone on 9:16, and the grid guide on
/// 4:5 while it is on.
pub fn guide(aspect: CropAspect, grid_guide: bool) -> (r: Guide)
    ensures
        r == guide_spec(aspect, grid_guide),
        r == match aspect {
            CropAspect::Story9x16 => Guide::SafeZone,
            CropAspect::Feed4x5 => if grid_guide {
                Guide::Grid
            } else {
                Guide::Nothing
            },
            _ => Guide::Nothing,
        },
{
    match aspect {
        CropAspect::Story9x16 => Guide::SafeZone,
        CropAspect::Feed4x5 => if grid_guide {
            Guide::Grid
        } else {
            Guide::Nothing
        },
        _ => Guide::Nothing,
    }
}

/// Two places are no further apart than a pad when each lies within it of the
/// other, whichever comes first.
pub proof fn a_pan_goes_no_further_than_the_pad(a: u32, b: u32, pad: u32)
    ensures
        apart(a, b) <= pad <==> a <= b + pad && b <= a + pad,
        apart(a, b) == apart(b, a),
        apart(a, a) == 0,
{
}

/// A pan keeps the size of the picture and stays within the pad on both axes,
/// either way; any other step is a jump.
pub proof fn only_a_short_step_is_a_pan(before: ViewWindow, now: ViewWindow, pad: (u32, u32))
    ensures
        is_pan(before, now, pad) == is_pan(now, before, pad),
        before.full != now.full ==> !is_pan(before, now, pad),
        now.visible.x > before.visible.x + pad.0 ==> !is_pan(before, now, pad),
        now.visible.y > before.visible.y + pad.1 ==> !is_pan(before, now, pad),
        before.visible.x > now.visible.x + pad.0 ==> !is_pan(before, now, pad),
        before.visible.y > now.visible.y + pad.1 ==> !is_pan(before, now, pad),
        before.full == now.full && before.visible.x == now.visible.x && before.visible.y
            == now.visible.y ==> is_pan(before, now, pad),
{
}

/// A target is rendered when anything about it is new: the session changed,
/// another target was rendered, or what the tab shows has another size,
/// another generation or another filter.
pub proof fn anything_new_is_rendered(
    screen: Screen,
    target: Target,
    generation: u64,
    nearest: bool,
    dirty: bool,
)
    ensures
        dirty ==> screen.wants(target, generation, nearest, dirty),
        screen.rendered != Some(target) ==> screen.wants(target, generation, nearest, dirty),
        screen.shown !is Photo ==> screen.wants(target, generation, nearest, dirty),
        screen.shown is Photo && screen.shown->generation != generation ==> screen.wants(
            target,
            generation,
            nearest,
            dirty,
        ),
        screen.shown is Photo && screen.shown->nearest != nearest ==> screen.wants(
            target,
            generation,
            nearest,
            dirty,
        ),
{
}

/// A photo is shown whenever one is open; a video only once its first frame
/// came; and with neither the test image.
pub proof fn a_photo_is_shown_before_a_video(project: bool, frame: bool)
    ensures
        picture_spec(true, project, frame) == Picture::Photo,
        picture_spec(false, true, true) == Picture::Video,
        !project || !frame ==> picture_spec(false, project, frame) == Picture::Placeholder,
{
}

/// A picture goes where the view places it, what is seen of it when it is
/// zoomed; the test image, and a picture with no place yet, is fitted.
pub proof fn a_picture_goes_where_the_view_places_it(placed: bool, zoomed: bool, picture: bool)
    ensures
        placed && picture && zoomed ==> paint_spec(placed, zoomed, picture) == Paint::Seen,
        placed && picture && !zoomed ==> paint_spec(placed, zoomed, picture) == Paint::Whole,
        !placed || !picture ==> paint_spec(placed, zoomed, picture) == Paint::Fitted,
{
}

/// With the prompt up nothing moves the view. Else the wheel and the keys zoom,
/// Space pans unless someone types, and the bare picture pans unless a brush is
/// in the hand. A Space that is neither held nor let go this frame is
/// forgotten.
pub proof fn the_prompt_holds_the_view(input: ViewInput)
    ensures
        input.prompt ==> !input.may().space_pans && !input.may().bare_picture && !input.may().zooms,
        !input.prompt ==> input.may().zooms,
        !input.prompt && input.space && !input.typing ==> input.may().space_pans,
        input.typing || !input.space ==> !input.may().space_pans,
        !input.prompt && !input.armed ==> input.may().bare_picture,
        input.armed ==> !input.may().bare_picture,
        input.may().forget_space <==> !input.space && !input.space_released,
{
}

/// A button is acted on before a key, and neither while the prompt is up.
pub proof fn a_button_comes_before_a_key<T>(asked: Option<T>, pressed: Option<T>)
    ensures
        request_spec(true, asked, pressed) is None,
        asked is Some ==> request_spec(false, asked, pressed) == asked,
        asked is None ==> request_spec(false, asked, pressed) == pressed,
{
}

/// A story always shows its safe zone, a feed post the grid when it is asked
/// for, and no other crop has a guide.
pub proof fn each_crop_shows_its_guide(aspect: CropAspect, grid_guide: bool)
    ensures
        guide_spec(CropAspect::Story9x16, grid_guide) == Guide::SafeZone,
        guide_spec(CropAspect::Feed4x5, true) == Guide::Grid,
        guide_spec(CropAspect::Feed4x5, false) == Guide::Nothing,
        aspect == CropAspect::Square || aspect == CropAspect::Grid3x4 ==> guide_spec(
            aspect,
            grid_guide,
        ) == Guide::Nothing,
{
}

/// A window is built ahead only of a pan: the first render, a whole picture, a
/// change of size and a jump build nothing. A pan that moved plans from where
/// it came, and one that paused goes on with what is building at its size.
pub proof fn a_window_is_built_ahead_of_a_pan(
    previous: Option<Target>,
    now: ViewWindow,
    pad: (u32, u32),
    built: Option<(Size, PixelRect)>,
    building: bool,
)
    ensures
        ({
            let ahead = ahead_spec(previous, Some(Target::Window(now)), pad, built, building);
            &&& previous is None ==> ahead == Ahead::Nothing
            &&& previous matches Some(Target::Whole(size)) ==> ahead == Ahead::Nothing
            &&& previous matches Some(Target::Window(before)) ==> {
                &&& before.full != now.full ==> ahead == Ahead::Nothing
                &&& !is_pan(before, now, pad) ==> ahead == Ahead::Nothing
                &&& is_pan(before, now, pad) && before.visible != now.visible ==> ahead is Plan
                    && ahead->before == before.visible && ahead->Plan_window == now.window
                    && ahead->Plan_full == now.full
                &&& is_pan(before, now, pad) && before.visible == now.visible && !building ==> ahead
                    == Ahead::Nothing
                &&& is_pan(before, now, pad) && before.visible == now.visible && building && (
                built matches Some((size, window)) && size == now.full) ==> ahead is Continue
                    && ahead->Continue_full == now.full && ahead->Continue_window == (built->0).1
            }
        }),
        ahead_spec(previous, None, pad, built, building) == Ahead::Nothing,
{
}

} // verus!
