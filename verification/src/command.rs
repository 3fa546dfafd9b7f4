//! The command line: the window, a screenshot, an export or a Reel.
//!
//! The arguments are read in two steps. [`scan`] sorts them by flag; the
//! numbers among them are still text. What those texts read as goes into
//! [`command`], which decides what is run. There is one answer to every bad
//! line: the usage.

use crate::export::ExportPreset;
use crate::num::{single, Double, Single, EIGHT_HUNDRED, HALF, ONE, ZERO};
use crate::text::{ascii_lowercase, chars, is, text_of, trim, trimmed};
use vstd::prelude::*;
use vstd::string::*;

verus! {

/// What the program prints when the line makes no sense.
pub fn usage() -> (r: &'static str)
    ensures
        r@ == usage_text(),
{
    "usage: gamut-app [<photo, video or project.gamut>]
       gamut-app [--open <photo>] --screenshot <out.png> [look] [--show-mask <name>]
       gamut-app --open <photo> --screenshot <out.png> [look] --zoom <percent> [--centre <x,y>]
       gamut-app --open <video or project.gamut> --screenshot <out.png> --at <seconds>
       gamut-app --open <photo> --export <4x5|1x1|3x4|9x16> <out.jpg> [look]
       gamut-app --export-reel <video or project.gamut> <out.mp4>
look:  [--edit <sidecar.json>] [--version-name <name>] [--preset <look.json>]
       the named version of the sidecar, then the look preset over it
--show-mask draws the named mask of the edit as a red overlay on a screenshot
--zoom shows the whole photo as the Viewer would at 1 to 800 percent, with no crop,
       about --centre, a point of the photo from 0,0 to 1,1 (0.5,0.5 when not given)"
}

pub open spec fn usage_text() -> Seq<char> {
    "usage: gamut-app [<photo, video or project.gamut>]
       gamut-app [--open <photo>] --screenshot <out.png> [look] [--show-mask <name>]
       gamut-app --open <photo> --screenshot <out.png> [look] --zoom <percent> [--centre <x,y>]
       gamut-app --open <video or project.gamut> --screenshot <out.png> --at <seconds>
       gamut-app --open <photo> --export <4x5|1x1|3x4|9x16> <out.jpg> [look]
       gamut-app --export-reel <video or project.gamut> <out.mp4>
look:  [--edit <sidecar.json>] [--version-name <name>] [--preset <look.json>]
       the named version of the sidecar, then the look preset over it
--show-mask draws the named mask of the edit as a red overlay on a screenshot
--zoom shows the whole photo as the Viewer would at 1 to 800 percent, with no crop,
       about --centre, a point of the photo from 0,0 to 1,1 (0.5,0.5 when not given)"@
}

/// The arguments by flag. A number is still the text it was given as.
#[derive(Debug)]
pub struct Slots {
    pub photo: Option<String>,
    pub screenshot: Option<String>,
    pub edit: Option<String>,
    pub look: Option<String>,
    pub version: Option<String>,
    pub show_mask: Option<String>,
    pub zoom: Option<String>,
    /// The two sides of the comma, without the white space around them.
    pub centre: Option<(String, String)>,
    pub at: Option<String>,
    /// The input and the output of a Reel export.
    pub reel: Option<(String, String)>,
    pub export: Option<(ExportPreset, String)>,
}

/// The arguments by flag, as texts.
#[verifier::ext_equal]
pub struct SlotsView {
    pub photo: Option<Seq<char>>,
    pub screenshot: Option<Seq<char>>,
    pub edit: Option<Seq<char>>,
    pub look: Option<Seq<char>>,
    pub version: Option<Seq<char>>,
    pub show_mask: Option<Seq<char>>,
    pub zoom: Option<Seq<char>>,
    pub centre: Option<(Seq<char>, Seq<char>)>,
    pub at: Option<Seq<char>>,
    pub reel: Option<(Seq<char>, Seq<char>)>,
    pub export: Option<(ExportPreset, Seq<char>)>,
}

pub open spec fn text_in(slot: Option<String>) -> Option<Seq<char>> {
    match slot {
        Some(text) => Some(text@),
        None => None,
    }
}

pub open spec fn texts_in(slot: Option<(String, String)>) -> Option<(Seq<char>, Seq<char>)> {
    match slot {
        Some((a, b)) => Some((a@, b@)),
        None => None,
    }
}

impl View for Slots {
    type V = SlotsView;

    open spec fn view(&self) -> SlotsView {
        SlotsView {
            photo: text_in(self.photo),
            screenshot: text_in(self.screenshot),
            edit: text_in(self.edit),
            look: text_in(self.look),
            version: text_in(self.version),
            show_mask: text_in(self.show_mask),
            zoom: text_in(self.zoom),
            centre: texts_in(self.centre),
            at: text_in(self.at),
            reel: texts_in(self.reel),
            export: match self.export {
                Some((preset, out)) => Some((preset, out@)),
                None => None,
            },
        }
    }
}

/// A line with no argument.
pub open spec fn empty_slots() -> SlotsView {
    SlotsView {
        photo: None,
        screenshot: None,
        edit: None,
        look: None,
        version: None,
        show_mask: None,
        zoom: None,
        centre: None,
        at: None,
        reel: None,
        export: None,
    }
}

/// Where the first comma of a text stands, from a place on.
pub open spec fn comma(text: Seq<char>, from: int) -> Option<int>
    decreases text.len() - from,
{
    if from < 0 || from >= text.len() {
        None
    } else if text[from] == ',' {
        Some(from)
    } else {
        comma(text, from + 1)
    }
}

/// The two sides of the first comma, without the white space around them.
pub open spec fn sides(text: Seq<char>) -> Option<(Seq<char>, Seq<char>)> {
    match comma(text, 0) {
        Some(at) => Some((trimmed(text.take(at)), trimmed(text.skip(at + 1)))),
        None => None,
    }
}

/// Whether a text starts with two dashes.
pub open spec fn is_flag(text: Seq<char>) -> bool {
    text.len() >= 2 && text[0] == '-' && text[1] == '-'
}

/// The line with one flag and its values taken from the front: the slots, and
/// how many arguments it took. None where the flag is unknown, is given twice
/// or lacks a value it can use.
pub open spec fn taken(args: Seq<Seq<char>>, slots: SlotsView) -> Option<(SlotsView, nat)> {
    let flag = args[0];
    let one = args.len() >= 2;
    let two = args.len() >= 3;
    if flag == "--open"@ {
        if one && slots.photo is None {
            Some((SlotsView { photo: Some(args[1]), ..slots }, 2))
        } else {
            None
        }
    } else if flag == "--screenshot"@ {
        if one && slots.screenshot is None {
            Some((SlotsView { screenshot: Some(args[1]), ..slots }, 2))
        } else {
            None
        }
    } else if flag == "--edit"@ {
        if one && slots.edit is None {
            Some((SlotsView { edit: Some(args[1]), ..slots }, 2))
        } else {
            None
        }
    } else if flag == "--preset"@ {
        if one && slots.look is None {
            Some((SlotsView { look: Some(args[1]), ..slots }, 2))
        } else {
            None
        }
    } else if flag == "--version-name"@ {
        if one && slots.version is None && trimmed(args[1]).len() > 0 {
            Some((SlotsView { version: Some(args[1]), ..slots }, 2))
        } else {
            None
        }
    } else if flag == "--show-mask"@ {
        if one && slots.show_mask is None && trimmed(args[1]).len() > 0 {
            Some((SlotsView { show_mask: Some(args[1]), ..slots }, 2))
        } else {
            None
        }
    } else if flag == "--zoom"@ {
        if one && slots.zoom is None {
            Some((SlotsView { zoom: Some(args[1]), ..slots }, 2))
        } else {
            None
        }
    } else if flag == "--centre"@ {
        if one && slots.centre is None && sides(args[1]) is Some {
            Some((SlotsView { centre: sides(args[1]), ..slots }, 2))
        } else {
            None
        }
    } else if flag == "--at"@ {
        if one && slots.at is None {
            Some((SlotsView { at: Some(args[1]), ..slots }, 2))
        } else {
            None
        }
    } else if flag == "--export-reel"@ {
        if two && slots.reel is None {
            Some((SlotsView { reel: Some((args[1], args[2])), ..slots }, 3))
        } else {
            None
        }
    } else if flag == "--export"@ {
        match ExportPreset::named(ascii_lowercase(args[1])) {
            Some(preset) => if two && slots.export is None {
                Some((SlotsView { export: Some((preset, args[2])), ..slots }, 3))
            } else {
                None
            },
            None => None,
        }
    } else if is_flag(flag) || slots.photo is Some {
        None
    } else {
        Some((SlotsView { photo: Some(flag), ..slots }, 1))
    }
}

/// The slots a line fills, or none where it makes no sense.
pub open spec fn scanned(args: Seq<Seq<char>>, slots: SlotsView) -> Option<SlotsView>
    decreases args.len(),
{
    if args.len() == 0 {
        Some(slots)
    } else {
        match taken(args, slots) {
            Some((more, count)) => if 0 < count <= args.len() {
                scanned(args.skip(count as int), more)
            } else {
                None
            },
            None => None,
        }
    }
}

fn split_at_comma(text: &str) -> (r: Option<(String, String)>)
    ensures
        texts_in(r) == sides(text@),
{
    let all: Vec<char> = chars(text);
    let mut at: usize = 0;
    while at < all.len()
        invariant
            0 <= at <= all@.len(),
            all@ == text@,
            comma(text@, 0) == comma(text@, at as int),
        decreases all.len() - at,
    {
        if all[at] == ',' {
            assert(all@.subrange(0, at as int) =~= text@.take(at as int));
            assert(all@.subrange(at + 1, all@.len() as int) =~= text@.skip(at + 1));
            let left: String = text_of(&all, 0, at);
            let right: String = text_of(&all, at + 1, all.len());
            return Some((trim(left.as_str()), trim(right.as_str())));
        }
        at += 1;
    }
    None
}

fn starts_with_dashes(text: &str) -> (r: bool)
    ensures
        r == is_flag(text@),
{
    let all: Vec<char> = chars(text);
    all.len() >= 2 && all[0] == '-' && all[1] == '-'
}

/// The arguments as texts.
pub open spec fn arguments(args: Seq<String>) -> Seq<Seq<char>> {
    args.map_values(|a: String| a@)
}

/// Whether a name is more than white space.
fn names_something(name: &str) -> (r: bool)
    ensures
        r == (trimmed(name@).len() > 0),
{
    let name: String = trim(name);
    !name.as_str().is_empty()
}

/// Sorts the arguments by flag. None where the line makes no sense: an
/// unknown flag, one given twice, one without its values, two photos.
pub fn scan(args: &Vec<String>) -> (r: Option<Slots>)
    ensures
        match r {
            Some(slots) => scanned(arguments(args@), empty_slots()) == Some(slots@),
            None => scanned(arguments(args@), empty_slots()) is None,
        },
{
    let mut slots: Slots = Slots {
        photo: None,
        screenshot: None,
        edit: None,
        look: None,
        version: None,
        show_mask: None,
        zoom: None,
        centre: None,
        at: None,
        reel: None,
        export: None,
    };
    let ghost all = arguments(args@);
    let mut i: usize = 0;
    assert(all.skip(0) =~= all);
    while i < args.len()
        invariant
            0 <= i <= args@.len(),
            all == arguments(args@),
            scanned(all, empty_slots()) == scanned(all.skip(i as int), slots@),
        decreases args.len() - i,
    {
        let ghost rest = all.skip(i as int);
        let ghost before = slots@;
        let left: usize = args.len() - i;
        let flag: &str = args[i].as_str();
        proof {
            assert(rest[0] == args@[i as int]@);
            if left >= 2 {
                assert(rest[1] == args@[i + 1]@);
            }
            if left >= 3 {
                assert(rest[2] == args@[i + 2]@);
            }
        }
        let taken_now: usize;
        if is(flag, "--open") {
            if left < 2 || slots.photo.is_some() {
                return None;
            }
            slots.photo = Some(args[i + 1].clone());
            taken_now = 2;
        } else if is(flag, "--screenshot") {
            if left < 2 || slots.screenshot.is_some() {
                return None;
            }
            slots.screenshot = Some(args[i + 1].clone());
            taken_now = 2;
        } else if is(flag, "--edit") {
            if left < 2 || slots.edit.is_some() {
                return None;
            }
            slots.edit = Some(args[i + 1].clone());
            taken_now = 2;
        } else if is(flag, "--preset") {
            if left < 2 || slots.look.is_some() {
                return None;
            }
            slots.look = Some(args[i + 1].clone());
            taken_now = 2;
        } else if is(flag, "--version-name") {
            if left < 2 || slots.version.is_some() || !names_something(args[i + 1].as_str()) {
                return None;
            }
            slots.version = Some(args[i + 1].clone());
            taken_now = 2;
        } else if is(flag, "--show-mask") {
            if left < 2 || slots.show_mask.is_some() || !names_something(args[i + 1].as_str()) {
                return None;
            }
            slots.show_mask = Some(args[i + 1].clone());
            taken_now = 2;
        } else if is(flag, "--zoom") {
            if left < 2 || slots.zoom.is_some() {
                return None;
            }
            slots.zoom = Some(args[i + 1].clone());
            taken_now = 2;
        } else if is(flag, "--centre") {
            if left < 2 || slots.centre.is_some() {
                return None;
            }
            let found: Option<(String, String)> = split_at_comma(args[i + 1].as_str());
            if found.is_none() {
                return None;
            }
            slots.centre = found;
            taken_now = 2;
        } else if is(flag, "--at") {
            if left < 2 || slots.at.is_some() {
                return None;
            }
            slots.at = Some(args[i + 1].clone());
            taken_now = 2;
        } else if is(flag, "--export-reel") {
            if left < 3 || slots.reel.is_some() {
                return None;
            }
            slots.reel = Some((args[i + 1].clone(), args[i + 2].clone()));
            taken_now = 3;
        } else if is(flag, "--export") {
            if left < 3 || slots.export.is_some() {
                return None;
            }
            match ExportPreset::parse(args[i + 1].as_str()) {
                Some(preset) => {
                    slots.export = Some((preset, args[i + 2].clone()));
                },
                None => {
                    return None;
                },
            }
            taken_now = 3;
        } else {
            if starts_with_dashes(flag) || slots.photo.is_some() {
                return None;
            }
            slots.photo = Some(args[i].clone());
            taken_now = 1;
        }
        proof {
            assert(taken(rest, before) == Some((slots@, taken_now as nat)));
            assert(rest.skip(taken_now as int) =~= all.skip(i + taken_now));
        }
        i += taken_now;
    }
    assert(all.skip(i as int) =~= Seq::empty());
    Some(slots)
}

/// What the numbers of a line read as: none where the flag is not given or
/// its text is no number.
#[derive(Clone, Copy, Debug)]
pub struct Numbers {
    pub zoom: Option<Single>,
    pub centre: Option<(Single, Single)>,
    pub at: Option<Double>,
}

/// What is run.
#[derive(Debug)]
pub enum Command {
    Window { photo: Option<String> },
    Screenshot {
        photo: Option<String>,
        edit: Option<String>,
        version: Option<String>,
        look: Option<String>,
        show_mask: Option<String>,
        out: String,
        at: Option<Double>,
        /// The zoom in percent and the point of the photo in the middle.
        view: Option<(Single, (Single, Single))>,
    },
    ExportReel { input: String, out: String },
    Export {
        photo: String,
        edit: Option<String>,
        version: Option<String>,
        look: Option<String>,
        preset: ExportPreset,
        out: String,
    },
}

/// Whether every number given reads as one and lies in its range: the zoom
/// from 1 to 800 percent, the centre on the photo, the time not negative.
pub open spec fn numbers_fit(slots: Slots, numbers: Numbers) -> bool {
    &&& slots.zoom is Some ==> (numbers.zoom matches Some(percent) && single(ONE).at_most(percent)
        && percent.at_most(single(EIGHT_HUNDRED)))
    &&& slots.centre is Some ==> (numbers.centre matches Some((x, y)) && single(ZERO).at_most(x)
        && x.at_most(single(ONE)) && single(ZERO).at_most(y) && y.at_most(single(ONE)))
    &&& slots.at is Some ==> (numbers.at matches Some(seconds) && seconds.not_negative())
}

/// Whether a line asks for a look: an edit, a preset or a version.
pub open spec fn has_look(slots: Slots) -> bool {
    slots.edit is Some || slots.look is Some || slots.version is Some
}

/// A Reel export stands alone.
pub open spec fn is_reel(slots: Slots) -> bool {
    &&& slots.reel is Some
    &&& slots.photo is None && slots.screenshot is None && slots.export is None
    &&& !has_look(slots) && slots.show_mask is None
    &&& slots.at is None && slots.zoom is None
}

/// A screenshot: a look and an overlay need a photo to land on, a video frame
/// takes none, and a zoom is of a photo.
pub open spec fn is_screenshot(slots: Slots) -> bool {
    &&& slots.screenshot is Some && slots.export is None && slots.reel is None
    &&& slots.photo is None ==> slots.look is None && slots.version is None && slots.show_mask
        is None && slots.at is None && slots.zoom is None
    &&& slots.at is Some ==> !has_look(slots) && slots.show_mask is None && slots.zoom is None
}

/// An export needs a photo and shows no overlay, no view and no moment.
pub open spec fn is_export(slots: Slots) -> bool {
    &&& slots.export is Some && slots.screenshot is None && slots.reel is None
    &&& slots.photo is Some
    &&& slots.show_mask is None && slots.at is None && slots.zoom is None
}

/// The window takes a photo and nothing else.
pub open spec fn is_window(slots: Slots) -> bool {
    &&& slots.screenshot is None && slots.export is None && slots.reel is None
    &&& !has_look(slots) && slots.show_mask is None
    &&& slots.at is None && slots.zoom is None
}

/// The view a zoom asks for: about the middle of the photo when no centre is
/// given.
pub open spec fn view_of(slots: Slots, numbers: Numbers) -> Option<(Single, (Single, Single))> {
    match slots.zoom {
        Some(_) => Some(
            (
                numbers.zoom->0,
                if slots.centre is Some {
                    numbers.centre->0
                } else {
                    (single(HALF), single(HALF))
                },
            ),
        ),
        None => None,
    }
}

/// What a line runs.
pub open spec fn decided(slots: Slots, numbers: Numbers) -> Option<Command> {
    if !numbers_fit(slots, numbers) || (slots.centre is Some && slots.zoom is None) {
        None
    } else if is_reel(slots) {
        let (input, out) = slots.reel->0;
        Some(Command::ExportReel { input, out })
    } else if is_screenshot(slots) {
        Some(
            Command::Screenshot {
                photo: slots.photo,
                edit: slots.edit,
                version: slots.version,
                look: slots.look,
                show_mask: slots.show_mask,
                out: slots.screenshot->0,
                at: if slots.at is Some {
                    numbers.at
                } else {
                    None
                },
                view: view_of(slots, numbers),
            },
        )
    } else if is_export(slots) {
        let (preset, out) = slots.export->0;
        Some(
            Command::Export {
                photo: slots.photo->0,
                edit: slots.edit,
                version: slots.version,
                look: slots.look,
                preset,
                out,
            },
        )
    } else if is_window(slots) {
        Some(Command::Window { photo: slots.photo })
    } else {
        None
    }
}

/// What a line runs, or none where it makes no sense.
pub fn command(slots: Slots, numbers: Numbers) -> (r: Option<Command>)
    ensures
        r == decided(slots, numbers),
{
    let zoom: Option<Single> = match (&slots.zoom, numbers.zoom) {
        (Some(_), Some(percent)) => {
            if !percent.is_within(Single { bits: ONE }, Single { bits: EIGHT_HUNDRED }) {
                return None;
            }
            Some(percent)
        },
        (Some(_), None) => {
            return None;
        },
        (None, _) => None,
    };
    let centre: Option<(Single, Single)> = match (&slots.centre, numbers.centre) {
        (Some(_), Some((x, y))) => {
            if !x.is_within(Single { bits: ZERO }, Single { bits: ONE }) || !y.is_within(
                Single { bits: ZERO },
                Single { bits: ONE },
            ) {
                return None;
            }
            Some((x, y))
        },
        (Some(_), None) => {
            return None;
        },
        (None, _) => None,
    };
    let at: Option<Double> = match (&slots.at, numbers.at) {
        (Some(_), Some(seconds)) => {
            if !seconds.is_not_negative() {
                return None;
            }
            Some(seconds)
        },
        (Some(_), None) => {
            return None;
        },
        (None, _) => None,
    };
    // A view is of a photo screenshot: never of an export, a Reel, a video
    // frame or the window, and a centre is of a zoom.
    if centre.is_some() && zoom.is_none() {
        return None;
    }
    let view: Option<(Single, (Single, Single))> = match zoom {
        Some(percent) => Some(
            (
                percent,
                match centre {
                    Some(centre) => centre,
                    None => (Single { bits: HALF }, Single { bits: HALF }),
                },
            ),
        ),
        None => None,
    };
    if view.is_some() && (slots.photo.is_none() || slots.screenshot.is_none()
        || slots.export.is_some() || slots.reel.is_some() || at.is_some()) {
        return None;
    }
    let has_look: bool = slots.edit.is_some() || slots.look.is_some() || slots.version.is_some();
    if let Some((input, out)) = slots.reel {
        let plain: bool = slots.photo.is_none() && slots.screenshot.is_none()
            && slots.export.is_none();
        return if plain && !has_look && slots.show_mask.is_none() && at.is_none() {
            Some(Command::ExportReel { input, out })
        } else {
            None
        };
    }
    // A look needs a photo to land on, and a video frame takes none.
    if (slots.look.is_some() || slots.version.is_some() || slots.show_mask.is_some())
        && slots.photo.is_none() {
        return None;
    }
    match (slots.screenshot, slots.export) {
        (Some(out), None) => {
            if at.is_some() && (slots.photo.is_none() || has_look || slots.show_mask.is_some()) {
                return None;
            }
            Some(
                Command::Screenshot {
                    photo: slots.photo,
                    edit: slots.edit,
                    version: slots.version,
                    look: slots.look,
                    show_mask: slots.show_mask,
                    out,
                    at,
                    view,
                },
            )
        },
        (None, Some((preset, out))) => {
            // The overlay is a view of a mask: it shows on a screenshot only.
            if slots.show_mask.is_some() || at.is_some() {
                return None;
            }
            match slots.photo {
                Some(photo) => Some(
                    Command::Export {
                        photo,
                        edit: slots.edit,
                        version: slots.version,
                        look: slots.look,
                        preset,
                        out,
                    },
                ),
                None => None,
            }
        },
        (None, None) => {
            if slots.show_mask.is_some() || at.is_some() || has_look {
                None
            } else {
                Some(Command::Window { photo: slots.photo })
            }
        },
        _ => None,
    }
}

/// A line runs one thing at most.
pub proof fn a_line_runs_one_thing(slots: Slots)
    ensures
        !(is_reel(slots) && is_screenshot(slots)),
        !(is_reel(slots) && is_export(slots)),
        !(is_reel(slots) && is_window(slots)),
        !(is_screenshot(slots) && is_export(slots)),
        !(is_screenshot(slots) && is_window(slots)),
        !(is_export(slots) && is_window(slots)),
{
}

/// A whole group of arguments: a flag with its values, or a word alone.
pub open spec fn is_group(group: Seq<Seq<char>>) -> bool {
    &&& group.len() > 0
    &&& group.len() == if takes_one(group[0]) {
        2int
    } else if group[0] == "--export-reel"@ || group[0] == "--export"@ {
        3int
    } else {
        1int
    }
    &&& group.len() == 1 ==> !is_flag(group[0])
}

/// Whether a flag takes one value.
pub open spec fn takes_one(flag: Seq<char>) -> bool {
    ||| flag == "--open"@
    ||| flag == "--screenshot"@
    ||| flag == "--edit"@
    ||| flag == "--preset"@
    ||| flag == "--version-name"@
    ||| flag == "--show-mask"@
    ||| flag == "--zoom"@
    ||| flag == "--centre"@
    ||| flag == "--at"@
}

/// The slot a group fills. A word alone fills that of `--open`.
#[derive(Clone, Copy, Debug, PartialEq, Eq, Structural)]
pub enum Slot {
    Photo,
    Screenshot,
    Edit,
    Look,
    Version,
    ShowMask,
    Zoom,
    Centre,
    At,
    Reel,
    Export,
}

pub open spec fn slot_of(group: Seq<Seq<char>>) -> Slot {
    let flag = group[0];
    if flag == "--open"@ {
        Slot::Photo
    } else if flag == "--screenshot"@ {
        Slot::Screenshot
    } else if flag == "--edit"@ {
        Slot::Edit
    } else if flag == "--preset"@ {
        Slot::Look
    } else if flag == "--version-name"@ {
        Slot::Version
    } else if flag == "--show-mask"@ {
        Slot::ShowMask
    } else if flag == "--zoom"@ {
        Slot::Zoom
    } else if flag == "--centre"@ {
        Slot::Centre
    } else if flag == "--at"@ {
        Slot::At
    } else if flag == "--export-reel"@ {
        Slot::Reel
    } else if flag == "--export"@ {
        Slot::Export
    } else {
        Slot::Photo
    }
}

pub open spec fn is_free(slots: SlotsView, slot: Slot) -> bool {
    match slot {
        Slot::Photo => slots.photo is None,
        Slot::Screenshot => slots.screenshot is None,
        Slot::Edit => slots.edit is None,
        Slot::Look => slots.look is None,
        Slot::Version => slots.version is None,
        Slot::ShowMask => slots.show_mask is None,
        Slot::Zoom => slots.zoom is None,
        Slot::Centre => slots.centre is None,
        Slot::At => slots.at is None,
        Slot::Reel => slots.reel is None,
        Slot::Export => slots.export is None,
    }
}

/// Whether the values of a group can be used at all.
spec fn is_usable(group: Seq<Seq<char>>) -> bool {
    match slot_of(group) {
        Slot::Version => trimmed(group[1]).len() > 0,
        Slot::ShowMask => trimmed(group[1]).len() > 0,
        Slot::Centre => sides(group[1]) is Some,
        Slot::Export => ExportPreset::named(ascii_lowercase(group[1])) is Some,
        _ => true,
    }
}

/// The slots with the one of a group filled.
spec fn filled(slots: SlotsView, group: Seq<Seq<char>>) -> SlotsView {
    match slot_of(group) {
        Slot::Photo => SlotsView { photo: Some(group[group.len() - 1]), ..slots },
        Slot::Screenshot => SlotsView { screenshot: Some(group[1]), ..slots },
        Slot::Edit => SlotsView { edit: Some(group[1]), ..slots },
        Slot::Look => SlotsView { look: Some(group[1]), ..slots },
        Slot::Version => SlotsView { version: Some(group[1]), ..slots },
        Slot::ShowMask => SlotsView { show_mask: Some(group[1]), ..slots },
        Slot::Zoom => SlotsView { zoom: Some(group[1]), ..slots },
        Slot::Centre => SlotsView { centre: sides(group[1]), ..slots },
        Slot::At => SlotsView { at: Some(group[1]), ..slots },
        Slot::Reel => SlotsView { reel: Some((group[1], group[2])), ..slots },
        Slot::Export => SlotsView {
            export: Some((ExportPreset::named(ascii_lowercase(group[1]))->0, group[2])),
            ..slots
        },
    }
}

/// A whole group in front of a line fills its slot, if that is free and the
/// values can be used, whatever comes behind it.
proof fn a_group_fills_its_slot(
    group: Seq<Seq<char>>,
    rest: Seq<Seq<char>>,
    slots: SlotsView,
)
    requires
        is_group(group),
    ensures
        taken(group + rest, slots) == if is_usable(group) && is_free(slots, slot_of(group)) {
            Some((filled(slots, group), group.len()))
        } else {
            None
        },
{
    let args = group + rest;
    assert(args[0] == group[0]);
    if group.len() >= 2 {
        assert(args[1] == group[1]);
    }
    if group.len() >= 3 {
        assert(args[2] == group[2]);
    }
}

/// The slots after a run of groups.
spec fn run(groups: Seq<Seq<Seq<char>>>, slots: SlotsView) -> Option<SlotsView>
    decreases groups.len(),
{
    if groups.len() == 0 {
        Some(slots)
    } else if is_usable(groups[0]) && is_free(slots, slot_of(groups[0])) {
        run(groups.drop_first(), filled(slots, groups[0]))
    } else {
        None
    }
}

spec fn all_groups(groups: Seq<Seq<Seq<char>>>) -> bool {
    forall|i: int| 0 <= i < groups.len() ==> is_group(#[trigger] groups[i])
}

proof fn a_line_of_groups_runs(groups: Seq<Seq<Seq<char>>>, slots: SlotsView)
    requires
        all_groups(groups),
    ensures
        scanned(groups.flatten(), slots) == run(groups, slots),
    decreases groups.len(),
{
    if groups.len() > 0 {
        let group = groups[0];
        let rest = groups.drop_first();
        assert(is_group(group));
        assert(groups.first() == group);
        let args = groups.flatten();
        assert(args == group + rest.flatten());
        assert forall|i: int| 0 <= i < rest.len() implies is_group(#[trigger] rest[i]) by {
            assert(rest[i] == groups[i + 1]);
        }
        a_group_fills_its_slot(group, rest.flatten(), slots);
        assert(args.skip(group.len() as int) =~= rest.flatten());
        a_line_of_groups_runs(rest, filled(slots, group));
    }
}

/// Two groups in a row fill the same slots in either order.
proof fn two_groups_change_places(
    a: Seq<Seq<char>>,
    b: Seq<Seq<char>>,
    rest: Seq<Seq<Seq<char>>>,
    slots: SlotsView,
)
    requires
        is_group(a),
        is_group(b),
    ensures
        run(seq![a, b] + rest, slots) == run(seq![b, a] + rest, slots),
{
    let (x, y) = (seq![a, b] + rest, seq![b, a] + rest);
    assert(x[0] == a && y[0] == b);
    assert(x.drop_first()[0] == b && y.drop_first()[0] == a);
    assert(x.drop_first().drop_first() =~= rest);
    assert(y.drop_first().drop_first() =~= rest);
    if is_usable(a) && is_usable(b) {
        if slot_of(a) == slot_of(b) {
            assert(!is_free(filled(slots, a), slot_of(b)));
            assert(!is_free(filled(slots, b), slot_of(a)));
        } else {
            assert(is_free(filled(slots, a), slot_of(b)) == is_free(slots, slot_of(b)));
            assert(is_free(filled(slots, b), slot_of(a)) == is_free(slots, slot_of(a)));
            assert(filled(filled(slots, a), b) =~= filled(filled(slots, b), a));
        }
    }
    assert(run(x, slots) == run(y, slots)) by {
        reveal_with_fuel(run, 3);
    }
}

/// A group can be pulled to the front of a line.
proof fn a_group_comes_first(groups: Seq<Seq<Seq<char>>>, at: int, slots: SlotsView)
    requires
        all_groups(groups),
        0 <= at < groups.len(),
    ensures
        run(groups, slots) == run(seq![groups[at]] + groups.remove(at), slots),
    decreases at,
{
    if at == 0 {
        assert(seq![groups[0]] + groups.remove(0) =~= groups);
    } else {
        let first = groups[0];
        let rest = groups.drop_first();
        let x = groups[at];
        assert forall|i: int| 0 <= i < rest.len() implies is_group(#[trigger] rest[i]) by {
            assert(rest[i] == groups[i + 1]);
        }
        assert(is_group(first) && is_group(x));
        assert(rest[at - 1] == x);
        let left = rest.remove(at - 1);
        let behind = seq![x] + left;
        a_group_comes_first(rest, at - 1, filled(slots, first));
        assert(run(groups, slots) == run(seq![first] + behind, slots)) by {
            assert((seq![first] + behind)[0] == first);
            assert((seq![first] + behind).drop_first() =~= behind);
        }
        two_groups_change_places(first, x, left, slots);
        assert(seq![first] + behind =~= seq![first, x] + left);
        assert(seq![x] + groups.remove(at) =~= seq![x, first] + left);
    }
}

proof fn the_order_of_a_run(
    groups: Seq<Seq<Seq<char>>>,
    other: Seq<Seq<Seq<char>>>,
    slots: SlotsView,
)
    requires
        all_groups(groups),
        all_groups(other),
        groups.to_multiset() == other.to_multiset(),
    ensures
        run(groups, slots) == run(other, slots),
    decreases groups.len(),
{
    broadcast use vstd::seq_lib::group_to_multiset_ensures;

    assert(groups.len() == groups.to_multiset().len());
    assert(other.len() == other.to_multiset().len());
    if groups.len() > 0 {
        let first = groups[0];
        let rest = groups.drop_first();
        assert(groups.contains(first));
        assert(groups.to_multiset().count(first) > 0);
        assert(other.contains(first));
        let at = choose|at: int| 0 <= at < other.len() && other[at] == first;
        let left = other.remove(at);
        a_group_comes_first(other, at, slots);
        assert(rest =~= groups.remove(0));
        assert(rest.to_multiset() == groups.to_multiset().remove(first));
        assert(left.to_multiset() == other.to_multiset().remove(first));
        assert forall|i: int| 0 <= i < rest.len() implies is_group(#[trigger] rest[i]) by {
            assert(rest[i] == groups[i + 1]);
        }
        assert forall|i: int| 0 <= i < left.len() implies is_group(#[trigger] left[i]) by {
            assert(left[i] == if i < at {
                other[i]
            } else {
                other[i + 1]
            });
        }
        let front = seq![first] + left;
        assert(front[0] == first);
        assert(front.drop_first() =~= left);
        the_order_of_a_run(rest, left, filled(slots, first));
    }
}

/// The order of the groups of a line never matters: a line that holds the
/// same groups in another order fills the same slots, or makes as little
/// sense.
pub proof fn the_order_of_the_groups_never_matters(
    groups: Seq<Seq<Seq<char>>>,
    other: Seq<Seq<Seq<char>>>,
)
    requires
        forall|i: int| 0 <= i < groups.len() ==> is_group(#[trigger] groups[i]),
        groups.to_multiset() == other.to_multiset(),
    ensures
        scanned(groups.flatten(), empty_slots()) == scanned(other.flatten(), empty_slots()),
{
    broadcast use vstd::seq_lib::group_to_multiset_ensures;

    assert forall|i: int| 0 <= i < other.len() implies is_group(#[trigger] other[i]) by {
        assert(other.contains(other[i]));
        assert(other.to_multiset().count(other[i]) > 0);
        assert(groups.contains(other[i]));
    }
    a_line_of_groups_runs(groups, empty_slots());
    a_line_of_groups_runs(other, empty_slots());
    the_order_of_a_run(groups, other, empty_slots());
}

/// Two groups for one slot make no sense, wherever they stand: the same flag
/// twice, or two photos.
pub proof fn a_slot_is_filled_once(groups: Seq<Seq<Seq<char>>>, i: int, j: int)
    requires
        forall|k: int| 0 <= k < groups.len() ==> is_group(#[trigger] groups[k]),
        0 <= i < j < groups.len(),
        slot_of(groups[i]) == slot_of(groups[j]),
    ensures
        scanned(groups.flatten(), empty_slots()) is None,
{
    let slots = empty_slots();
    let (a, b) = (groups[i], groups[j]);
    assert(is_group(a) && is_group(b));
    let left = groups.remove(j);
    a_group_comes_first(groups, j, slots);
    assert(left[i] == a);
    assert forall|k: int| 0 <= k < left.len() implies is_group(#[trigger] left[k]) by {
        assert(left[k] == if k < j {
            groups[k]
        } else {
            groups[k + 1]
        });
    }
    let line = seq![b] + left;
    assert(line[0] == b);
    assert(line.drop_first() =~= left);
    a_group_comes_first(left, i, filled(slots, b));
    assert((seq![a] + left.remove(i))[0] == a);
    assert(!is_free(filled(slots, b), slot_of(a)) || !is_usable(b));
    a_line_of_groups_runs(groups, slots);
}

/// The same command, text by text.
pub open spec fn same_command(a: Option<Command>, b: Option<Command>) -> bool {
    match (a, b) {
        (None, None) => true,
        (Some(Command::Window { photo: x }), Some(Command::Window { photo: y })) => text_in(x)
            == text_in(y),
        (
            Some(
                Command::Screenshot {
                    photo,
                    edit,
                    version,
                    look,
                    show_mask,
                    out,
                    at,
                    view,
                },
            ),
            Some(Command::Screenshot {
                photo: photo2,
                edit: edit2,
                version: version2,
                look: look2,
                show_mask: show_mask2,
                out: out2,
                at: at2,
                view: view2,
            }),
        ) => {
            &&& text_in(photo) == text_in(photo2) && text_in(edit) == text_in(edit2)
            &&& text_in(version) == text_in(version2) && text_in(look) == text_in(look2)
            &&& text_in(show_mask) == text_in(show_mask2) && out@ == out2@
            &&& at == at2 && view == view2
        },
        (
            Some(Command::ExportReel { input, out }),
            Some(Command::ExportReel { input: input2, out: out2 }),
        ) => input@ == input2@ && out@ == out2@,
        (
            Some(Command::Export { photo, edit, version, look, preset, out }),
            Some(
                Command::Export {
                    photo: photo2,
                    edit: edit2,
                    version: version2,
                    look: look2,
                    preset: preset2,
                    out: out2,
                },
            ),
        ) => {
            &&& photo@ == photo2@ && text_in(edit) == text_in(edit2)
            &&& text_in(version) == text_in(version2) && text_in(look) == text_in(look2)
            &&& preset == preset2 && out@ == out2@
        },
        _ => false,
    }
}

/// The slots and what the numbers read as decide the command: two lines that
/// fill the same slots run the same thing.
pub proof fn the_slots_decide_the_command(a: Slots, b: Slots, numbers: Numbers)
    requires
        a@ == b@,
    ensures
        same_command(decided(a, numbers), decided(b, numbers)),
{
    let (x, y) = (a@, b@);
    assert(text_in(a.photo) == text_in(b.photo));
    assert(text_in(a.screenshot) == text_in(b.screenshot));
    assert(text_in(a.edit) == text_in(b.edit));
    assert(text_in(a.look) == text_in(b.look));
    assert(text_in(a.version) == text_in(b.version));
    assert(text_in(a.show_mask) == text_in(b.show_mask));
    assert(text_in(a.zoom) == text_in(b.zoom));
    assert(texts_in(a.centre) == texts_in(b.centre));
    assert(text_in(a.at) == text_in(b.at));
    assert(texts_in(a.reel) == texts_in(b.reel));
    assert(x.export == y.export);
}

proof fn the_flags_differ()
    ensures
        "--open"@.len() == 6 && "--open"@[2] == 'o',
        "--screenshot"@.len() == 12,
        "--edit"@.len() == 6 && "--edit"@[2] == 'e',
        "--preset"@.len() == 8 && "--preset"@[2] == 'p',
        "--version-name"@.len() == 14,
        "--show-mask"@.len() == 11,
        "--zoom"@.len() == 6 && "--zoom"@[2] == 'z',
        "--centre"@.len() == 8 && "--centre"@[2] == 'c',
        "--at"@.len() == 4,
        "--export-reel"@.len() == 13,
        "--export"@.len() == 8 && "--export"@[2] == 'e',
{
    reveal_strlit("--open");
    reveal_strlit("--screenshot");
    reveal_strlit("--edit");
    reveal_strlit("--preset");
    reveal_strlit("--version-name");
    reveal_strlit("--show-mask");
    reveal_strlit("--zoom");
    reveal_strlit("--centre");
    reveal_strlit("--at");
    reveal_strlit("--export-reel");
    reveal_strlit("--export");
}

/// A flag with one value puts that value into its own slot and leaves every
/// other, and takes two arguments; a flag whose slot is full, or that ends the
/// line, makes no sense.
pub proof fn a_flag_fills_its_own_slot(
    value: Seq<char>,
    rest: Seq<Seq<char>>,
    slots: SlotsView,
)
    requires
        trimmed(value).len() > 0,
    ensures
        slots.photo is None ==> taken(seq!["--open"@, value] + rest, slots) == Some(
            ((SlotsView { photo: Some(value), ..slots }), 2nat),
        ),
        slots.screenshot is None ==> taken(seq!["--screenshot"@, value] + rest, slots) == Some(
            ((SlotsView { screenshot: Some(value), ..slots }), 2nat),
        ),
        slots.edit is None ==> taken(seq!["--edit"@, value] + rest, slots) == Some(
            ((SlotsView { edit: Some(value), ..slots }), 2nat),
        ),
        slots.look is None ==> taken(seq!["--preset"@, value] + rest, slots) == Some(
            ((SlotsView { look: Some(value), ..slots }), 2nat),
        ),
        slots.version is None ==> taken(seq!["--version-name"@, value] + rest, slots) == Some(
            ((SlotsView { version: Some(value), ..slots }), 2nat),
        ),
        slots.show_mask is None ==> taken(seq!["--show-mask"@, value] + rest, slots) == Some(
            ((SlotsView { show_mask: Some(value), ..slots }), 2nat),
        ),
        slots.zoom is None ==> taken(seq!["--zoom"@, value] + rest, slots) == Some(
            ((SlotsView { zoom: Some(value), ..slots }), 2nat),
        ),
        slots.at is None ==> taken(seq!["--at"@, value] + rest, slots) == Some(
            ((SlotsView { at: Some(value), ..slots }), 2nat),
        ),
        slots.photo is Some ==> taken(seq!["--open"@, value] + rest, slots) is None,
        slots.screenshot is Some ==> taken(seq!["--screenshot"@, value] + rest, slots) is None,
        slots.edit is Some ==> taken(seq!["--edit"@, value] + rest, slots) is None,
        slots.look is Some ==> taken(seq!["--preset"@, value] + rest, slots) is None,
        slots.version is Some ==> taken(seq!["--version-name"@, value] + rest, slots) is None,
        slots.show_mask is Some ==> taken(seq!["--show-mask"@, value] + rest, slots) is None,
        slots.zoom is Some ==> taken(seq!["--zoom"@, value] + rest, slots) is None,
        slots.at is Some ==> taken(seq!["--at"@, value] + rest, slots) is None,
{
    the_flags_differ();
    assert((seq!["--open"@, value] + rest)[0] == "--open"@);
    assert((seq!["--screenshot"@, value] + rest)[0] == "--screenshot"@);
    assert((seq!["--edit"@, value] + rest)[0] == "--edit"@);
    assert((seq!["--preset"@, value] + rest)[0] == "--preset"@);
    assert((seq!["--version-name"@, value] + rest)[0] == "--version-name"@);
    assert((seq!["--show-mask"@, value] + rest)[0] == "--show-mask"@);
    assert((seq!["--zoom"@, value] + rest)[0] == "--zoom"@);
    assert((seq!["--at"@, value] + rest)[0] == "--at"@);
}

/// The exports take two values: the Reel its input and its output, a photo its
/// preset and its output. A centre is two numbers with a comma between them.
pub proof fn an_export_takes_two_values(
    first: Seq<char>,
    second: Seq<char>,
    rest: Seq<Seq<char>>,
    slots: SlotsView,
)
    ensures
        slots.reel is None ==> taken(seq!["--export-reel"@, first, second] + rest, slots) == Some(
            ((SlotsView { reel: Some((first, second)), ..slots }), 3nat),
        ),
        slots.export is None && ExportPreset::named(ascii_lowercase(first)) is Some ==> taken(
            seq!["--export"@, first, second] + rest,
            slots,
        ) == Some(
            (
                (SlotsView {
                    export: Some((ExportPreset::named(ascii_lowercase(first))->0, second)),
                    ..slots
                }),
                3nat,
            ),
        ),
        ExportPreset::named(ascii_lowercase(first)) is None ==> taken(
            seq!["--export"@, first, second] + rest,
            slots,
        ) is None,
        slots.centre is None && sides(first) is Some ==> taken(
            seq!["--centre"@, first, second] + rest,
            slots,
        ) == Some(((SlotsView { centre: sides(first), ..slots }), 2nat)),
        sides(first) is None ==> taken(seq!["--centre"@, first, second] + rest, slots) is None,
        slots.reel is Some ==> taken(seq!["--export-reel"@, first, second] + rest, slots) is None,
        slots.export is Some ==> taken(seq!["--export"@, first, second] + rest, slots) is None,
        slots.centre is Some ==> taken(seq!["--centre"@, first, second] + rest, slots) is None,
{
    the_flags_differ();
    assert((seq!["--export-reel"@, first, second] + rest)[0] == "--export-reel"@);
    assert((seq!["--export"@, first, second] + rest)[0] == "--export"@);
    assert((seq!["--export"@, first, second] + rest)[1] == first);
    assert((seq!["--centre"@, first, second] + rest)[0] == "--centre"@);
}

/// A word without dashes is the photo, when there is none yet; a flag nobody
/// knows makes no sense.
pub proof fn a_word_alone_is_the_photo(
    word: Seq<char>,
    rest: Seq<Seq<char>>,
    slots: SlotsView,
)
    requires
        !(word.len() >= 2 && word[0] == '-' && word[1] == '-'),
    ensures
        slots.photo is None ==> taken(seq![word] + rest, slots) == Some(
            ((SlotsView { photo: Some(word), ..slots }), 1nat),
        ),
        slots.photo is Some ==> taken(seq![word] + rest, slots) is None,
{
    reveal_strlit("--open");
    reveal_strlit("--screenshot");
    reveal_strlit("--edit");
    reveal_strlit("--preset");
    reveal_strlit("--version-name");
    reveal_strlit("--show-mask");
    reveal_strlit("--zoom");
    reveal_strlit("--centre");
    reveal_strlit("--at");
    reveal_strlit("--export-reel");
    reveal_strlit("--export");
    assert((seq![word] + rest)[0] == word);
}

/// The sides of a centre are what stands before and behind its first comma,
/// without the white space around them.
pub proof fn a_centre_has_two_sides(x: Seq<char>, y: Seq<char>)
    requires
        forall|i: int| 0 <= i < x.len() ==> #[trigger] x[i] != ',',
    ensures
        sides(x + seq![','] + y) == Some((trimmed(x), trimmed(y))),
        sides(x) is None,
{
    let text = x + seq![','] + y;
    the_comma_is_found(text, 0, x.len() as int);
    assert(text.take(x.len() as int) =~= x);
    assert(text.skip(x.len() as int + 1) =~= y);
    no_comma_is_found(x, 0);
}

proof fn the_comma_is_found(text: Seq<char>, from: int, at: int)
    requires
        0 <= from <= at < text.len(),
        text[at] == ',',
        forall|i: int| from <= i < at ==> #[trigger] text[i] != ',',
    ensures
        comma(text, from) == Some(at),
    decreases at - from,
{
    if from < at {
        the_comma_is_found(text, from + 1, at);
    }
}

proof fn no_comma_is_found(text: Seq<char>, from: int)
    requires
        0 <= from <= text.len(),
        forall|i: int| from <= i < text.len() ==> #[trigger] text[i] != ',',
    ensures
        comma(text, from) is None,
    decreases text.len() - from,
{
    if from < text.len() {
        no_comma_is_found(text, from + 1);
    }
}

/// A line is read from its front: what its first flag took goes into the
/// slots, and the rest of the line is read after it.
pub proof fn a_line_is_read_from_its_front(args: Seq<Seq<char>>, slots: SlotsView)
    ensures
        scanned(Seq::empty(), slots) == Some(slots),
        args.len() > 0 && taken(args, slots) is None ==> scanned(args, slots) is None,
        (args.len() > 0 && (taken(args, slots) matches Some((more, count)) && 0 < count
            <= args.len())) ==> scanned(args, slots) == scanned(
            args.skip((taken(args, slots)->0).1 as int),
            (taken(args, slots)->0).0,
        ),
{
}

/// A line with nothing but a photo, or with nothing, opens the window on it.
pub proof fn a_photo_alone_opens_the_window(slots: Slots, numbers: Numbers)
    requires
        slots.screenshot is None && slots.export is None && slots.reel is None,
        slots.edit is None && slots.look is None && slots.version is None,
        slots.show_mask is None && slots.zoom is None && slots.centre is None && slots.at is None,
    ensures
        decided(slots, numbers) == Some(Command::Window { photo: slots.photo }),
{
}

/// A Reel export takes its input and its output, and stands alone on its line.
pub proof fn a_reel_export_stands_alone(slots: Slots, numbers: Numbers)
    requires
        slots.reel is Some,
    ensures
        ({
            let alone = slots.photo is None && slots.screenshot is None && slots.export is None
                && slots.edit is None && slots.look is None && slots.version is None
                && slots.show_mask is None && slots.zoom is None && slots.centre is None && slots.at
                is None;
            &&& alone ==> decided(slots, numbers) == Some(
                Command::ExportReel { input: (slots.reel->0).0, out: (slots.reel->0).1 },
            )
            &&& !alone ==> decided(slots, numbers) is None
        }),
{
}

/// A photo is exported with the look the line gives it, under its preset; an
/// export without a photo, or with an overlay, a view or a moment, makes no
/// sense.
pub proof fn an_export_takes_a_photo_and_its_look(slots: Slots, numbers: Numbers)
    requires
        slots.export is Some,
    ensures
        ({
            let fits = slots.photo is Some && slots.screenshot is None && slots.reel is None
                && slots.show_mask is None && slots.zoom is None && slots.centre is None && slots.at
                is None;
            &&& fits ==> decided(slots, numbers) == Some(
                Command::Export {
                    photo: slots.photo->0,
                    edit: slots.edit,
                    version: slots.version,
                    look: slots.look,
                    preset: (slots.export->0).0,
                    out: (slots.export->0).1,
                },
            )
            &&& !fits ==> decided(slots, numbers) is None
        }),
{
}

/// A screenshot of a photo takes the look, the overlay and the view the line
/// gives it.
pub proof fn a_screenshot_of_a_photo_takes_its_look(slots: Slots, numbers: Numbers)
    requires
        slots.screenshot is Some && slots.photo is Some,
        slots.export is None && slots.reel is None && slots.at is None,
        slots.centre is Some ==> slots.zoom is Some,
        slots.zoom is Some ==> (numbers.zoom matches Some(percent) && 0x3f80_0000 <= percent.bits
            <= 0x4448_0000),
        slots.centre is Some ==> (numbers.centre matches Some((x, y)) && x.bits <= 0x3f80_0000
            && y.bits <= 0x3f80_0000),
    ensures
        decided(slots, numbers) is Some && decided(slots, numbers)->0 is Screenshot,
        ({
            let shot = decided(slots, numbers)->0;
            &&& shot->Screenshot_photo == slots.photo
            &&& shot->Screenshot_edit == slots.edit
            &&& shot->Screenshot_version == slots.version
            &&& shot->Screenshot_look == slots.look
            &&& shot->show_mask == slots.show_mask
            &&& shot->Screenshot_out == slots.screenshot->0
            &&& shot->at is None
            &&& slots.zoom is None ==> shot->view is None
            &&& slots.zoom is Some ==> shot->view is Some && (shot->view->0).0 == numbers.zoom->0
            &&& slots.zoom is Some && slots.centre is Some ==> (shot->view->0).1
                == numbers.centre->0
            &&& slots.zoom is Some && slots.centre is None ==> ((shot->view->0).1).0.bits
                == 0x3f00_0000 && ((shot->view->0).1).1.bits == 0x3f00_0000
        }),
{
}

/// A screenshot of a moment of a video takes no look, no overlay and no view.
pub proof fn a_screenshot_of_a_moment_takes_no_look(slots: Slots, numbers: Numbers)
    requires
        slots.screenshot is Some && slots.at is Some,
    ensures
        decided(slots, numbers) matches Some(command) ==> {
            &&& command is Screenshot && command->at == numbers.at && command->at is Some
            &&& command->at->0.not_negative()
            &&& slots.photo is Some && command->Screenshot_photo == slots.photo
            &&& command->Screenshot_out == slots.screenshot->0
            &&& slots.edit is None && slots.look is None && slots.version is None
            &&& slots.show_mask is None && slots.zoom is None
            &&& command->view is None
        },
        slots.photo is Some && slots.export is None && slots.reel is None && slots.edit is None
            && slots.look is None && slots.version is None && slots.show_mask is None && slots.zoom
            is None && slots.centre is None && (numbers.at matches Some(seconds)
            && seconds.not_negative()) ==> decided(slots, numbers) is Some,
{
}

/// Without a photo a screenshot is of the test image, and a look, an overlay,
/// a view or a moment has nothing to land on; an edit alone is let pass.
pub proof fn a_screenshot_without_a_photo_takes_nothing(slots: Slots, numbers: Numbers)
    requires
        slots.screenshot is Some && slots.photo is None,
    ensures
        slots.look is Some || slots.version is Some || slots.show_mask is Some || slots.zoom is Some
            || slots.at is Some || slots.centre is Some || slots.export is Some || slots.reel
            is Some ==> decided(slots, numbers) is None,
        slots.look is None && slots.version is None && slots.show_mask is None && slots.zoom is None
            && slots.at is None && slots.centre is None && slots.export is None && slots.reel
            is None ==> decided(slots, numbers) is Some && decided(slots, numbers)->0 is Screenshot
            && decided(slots, numbers)->0->Screenshot_out == slots.screenshot->0,
{
}

/// A zoom is from 1 to 800 percent and a centre lies on the photo: a line with
/// one outside, or with one that is no number, makes no sense, nor does a
/// centre without a zoom.
pub proof fn a_number_outside_its_range_makes_no_sense(slots: Slots, numbers: Numbers)
    ensures
        slots.zoom is Some && !(numbers.zoom matches Some(percent) && 0x3f80_0000 <= percent.bits
            <= 0x4448_0000) ==> decided(slots, numbers) is None,
        slots.centre is Some && slots.zoom is None ==> decided(slots, numbers) is None,
        slots.centre is Some && numbers.centre is None ==> decided(slots, numbers) is None,
        (slots.centre is Some && (numbers.centre matches Some((x, y)) && (0x3f80_0000 < x.bits
            < 0x8000_0000 || 0x8000_0000 < x.bits || 0x3f80_0000 < y.bits < 0x8000_0000
            || 0x8000_0000 < y.bits))) ==> decided(slots, numbers) is None,
        slots.at is Some && numbers.at is None ==> decided(slots, numbers) is None,
        (slots.at is Some && (numbers.at matches Some(seconds) && seconds.bits
            > 0x8000_0000_0000_0000)) ==> decided(slots, numbers) is None,
{
}

/// Without a screenshot or an export a look, an overlay, a view or a moment
/// has nothing to go into.
pub proof fn the_window_takes_a_photo_and_nothing_else(slots: Slots, numbers: Numbers)
    requires
        slots.screenshot is None && slots.export is None && slots.reel is None,
        slots.edit is Some || slots.look is Some || slots.version is Some || slots.show_mask is Some
            || slots.zoom is Some || slots.at is Some || slots.centre is Some,
    ensures
        decided(slots, numbers) is None,
{
}

} // verus!
