//! The export presets: the four Instagram sizes a photo leaves the editor at.

use crate::crop::CropAspect;
use crate::text::{ascii_lowercase, is, to_ascii_lowercase};
use vstd::prelude::*;

verus! {

/// One of the four export sizes.
#[derive(Clone, Copy, Debug, PartialEq, Eq, Structural)]
pub enum ExportPreset {
    /// The 4:5 feed post, 1080 by 1350.
    Feed4x5,
    /// The square post, 1080 by 1080.
    Square,
    /// The 3:4 profile grid, 1080 by 1440.
    Grid3x4,
    /// The 9:16 story and reel, 1080 by 1920.
    Story9x16,
}

impl Default for ExportPreset {
    fn default() -> (r: Self)
        ensures
            r == ExportPreset::Feed4x5,
    {
        ExportPreset::Feed4x5
    }
}

/// The four presets, in the order of the export dialog.
pub fn all_presets() -> (r: [ExportPreset; 4])
    ensures
        r@ == seq![
            ExportPreset::Feed4x5,
            ExportPreset::Square,
            ExportPreset::Grid3x4,
            ExportPreset::Story9x16,
        ],
{
    [ExportPreset::Feed4x5, ExportPreset::Square, ExportPreset::Grid3x4, ExportPreset::Story9x16]
}

impl ExportPreset {
    pub open spec fn size_spec(self) -> (u32, u32) {
        match self {
            ExportPreset::Feed4x5 => (1080, 1350),
            ExportPreset::Square => (1080, 1080),
            ExportPreset::Grid3x4 => (1080, 1440),
            ExportPreset::Story9x16 => (1080, 1920),
        }
    }

    /// Width and height in pixels.
    pub fn size(self) -> (r: (u32, u32))
        ensures
            r == self.size_spec(),
            r.0 == 1080,
    {
        match self {
            ExportPreset::Feed4x5 => (1080, 1350),
            ExportPreset::Square => (1080, 1080),
            ExportPreset::Grid3x4 => (1080, 1440),
            ExportPreset::Story9x16 => (1080, 1920),
        }
    }

    pub open spec fn aspect_spec(self) -> CropAspect {
        match self {
            ExportPreset::Feed4x5 => CropAspect::Feed4x5,
            ExportPreset::Square => CropAspect::Square,
            ExportPreset::Grid3x4 => CropAspect::Grid3x4,
            ExportPreset::Story9x16 => CropAspect::Story9x16,
        }
    }

    /// The crop aspect this preset exports.
    pub fn aspect(self) -> (r: CropAspect)
        ensures
            r == self.aspect_spec(),
            self is Feed4x5 ==> r is Feed4x5,
            self is Square ==> r is Square,
            self is Grid3x4 ==> r is Grid3x4,
            self is Story9x16 ==> r is Story9x16,
    {
        match self {
            ExportPreset::Feed4x5 => CropAspect::Feed4x5,
            ExportPreset::Square => CropAspect::Square,
            ExportPreset::Grid3x4 => CropAspect::Grid3x4,
            ExportPreset::Story9x16 => CropAspect::Story9x16,
        }
    }

    pub open spec fn for_aspect_spec(aspect: CropAspect) -> ExportPreset {
        match aspect {
            CropAspect::Feed4x5 => ExportPreset::Feed4x5,
            CropAspect::Square => ExportPreset::Square,
            CropAspect::Grid3x4 => ExportPreset::Grid3x4,
            CropAspect::Story9x16 => ExportPreset::Story9x16,
        }
    }

    /// The preset that matches a crop aspect.
    pub fn for_aspect(aspect: CropAspect) -> (r: ExportPreset)
        ensures
            r == ExportPreset::for_aspect_spec(aspect),
            aspect is Feed4x5 ==> r is Feed4x5,
            aspect is Square ==> r is Square,
            aspect is Grid3x4 ==> r is Grid3x4,
            aspect is Story9x16 ==> r is Story9x16,
    {
        match aspect {
            CropAspect::Feed4x5 => ExportPreset::Feed4x5,
            CropAspect::Square => ExportPreset::Square,
            CropAspect::Grid3x4 => ExportPreset::Grid3x4,
            CropAspect::Story9x16 => ExportPreset::Story9x16,
        }
    }

    pub open spec fn name_spec(self) -> Seq<char> {
        match self {
            ExportPreset::Feed4x5 => "4x5"@,
            ExportPreset::Square => "1x1"@,
            ExportPreset::Grid3x4 => "3x4"@,
            ExportPreset::Story9x16 => "9x16"@,
        }
    }

    /// The short name on the command line and in file names.
    pub fn name(self) -> (r: &'static str)
        ensures
            r@ == self.name_spec(),
            self is Feed4x5 ==> r@ == "4x5"@,
            self is Square ==> r@ == "1x1"@,
            self is Grid3x4 ==> r@ == "3x4"@,
            self is Story9x16 ==> r@ == "9x16"@,
    {
        match self {
            ExportPreset::Feed4x5 => "4x5",
            ExportPreset::Square => "1x1",
            ExportPreset::Grid3x4 => "3x4",
            ExportPreset::Story9x16 => "9x16",
        }
    }

    pub open spec fn label_spec(self) -> Seq<char> {
        match self {
            ExportPreset::Feed4x5 => "Feed post 4:5, 1080 by 1350"@,
            ExportPreset::Square => "Square 1:1, 1080 by 1080"@,
            ExportPreset::Grid3x4 => "Profile grid 3:4, 1080 by 1440"@,
            ExportPreset::Story9x16 => "Story and reel 9:16, 1080 by 1920"@,
        }
    }

    /// The name in the export dialog.
    pub fn label(self) -> (r: &'static str)
        ensures
            r@ == self.label_spec(),
            self is Feed4x5 ==> r@ == "Feed post 4:5, 1080 by 1350"@,
            self is Square ==> r@ == "Square 1:1, 1080 by 1080"@,
            self is Grid3x4 ==> r@ == "Profile grid 3:4, 1080 by 1440"@,
            self is Story9x16 ==> r@ == "Story and reel 9:16, 1080 by 1920"@,
    {
        match self {
            ExportPreset::Feed4x5 => "Feed post 4:5, 1080 by 1350",
            ExportPreset::Square => "Square 1:1, 1080 by 1080",
            ExportPreset::Grid3x4 => "Profile grid 3:4, 1080 by 1440",
            ExportPreset::Story9x16 => "Story and reel 9:16, 1080 by 1920",
        }
    }

    /// The preset a text in lower case names.
    pub open spec fn named(text: Seq<char>) -> Option<ExportPreset> {
        if text == "4x5"@ || text == "4:5"@ || text == "feed"@ {
            Some(ExportPreset::Feed4x5)
        } else if text == "1x1"@ || text == "1:1"@ || text == "square"@ {
            Some(ExportPreset::Square)
        } else if text == "3x4"@ || text == "3:4"@ || text == "grid"@ {
            Some(ExportPreset::Grid3x4)
        } else if text == "9x16"@ || text == "9:16"@ || text == "story"@ || text == "reel"@ {
            Some(ExportPreset::Story9x16)
        } else {
            None
        }
    }

    /// Reads a preset from its name, its ratio or its use, in any case.
    pub fn parse(text: &str) -> (r: Option<ExportPreset>)
        ensures
            r == ExportPreset::named(ascii_lowercase(text@)),
    {
        let text: String = to_ascii_lowercase(text);
        if is(&text, "4x5") || is(&text, "4:5") || is(&text, "feed") {
            Some(ExportPreset::Feed4x5)
        } else if is(&text, "1x1") || is(&text, "1:1") || is(&text, "square") {
            Some(ExportPreset::Square)
        } else if is(&text, "3x4") || is(&text, "3:4") || is(&text, "grid") {
            Some(ExportPreset::Grid3x4)
        } else if is(&text, "9x16") || is(&text, "9:16") || is(&text, "story") || is(
            &text,
            "reel",
        ) {
            Some(ExportPreset::Story9x16)
        } else {
            None
        }
    }
}

/// Every preset's size has the aspect of its crop.
pub proof fn every_size_has_the_aspect_of_its_crop(preset: ExportPreset)
    ensures
        preset.size_spec().0 * preset.aspect_spec().ratio_spec().1 == preset.size_spec().1
            * preset.aspect_spec().ratio_spec().0,
{
}

/// The preset of a preset's aspect is that preset.
pub proof fn the_preset_of_an_aspect_gives_the_aspect_back(
    preset: ExportPreset,
    aspect: CropAspect,
)
    ensures
        ExportPreset::for_aspect_spec(preset.aspect_spec()) == preset,
        ExportPreset::for_aspect_spec(aspect).aspect_spec() == aspect,
{
}

/// A preset's name reads back as the preset.
pub proof fn names_read_back(preset: ExportPreset)
    ensures
        ExportPreset::named(ascii_lowercase(preset.name_spec())) == Some(preset),
{
    reveal_strlit("4x5");
    reveal_strlit("1x1");
    reveal_strlit("3x4");
    reveal_strlit("9x16");
    reveal_strlit("4:5");
    reveal_strlit("1:1");
    reveal_strlit("3:4");
    reveal_strlit("feed");
    reveal_strlit("square");
    reveal_strlit("grid");
    assert(ascii_lowercase(preset.name_spec()) =~= preset.name_spec());
    let text = preset.name_spec();
    match preset {
        ExportPreset::Feed4x5 => {},
        ExportPreset::Square => {
            assert(text[0] == '1');
        },
        ExportPreset::Grid3x4 => {
            assert(text[0] == '3');
        },
        ExportPreset::Story9x16 => {
            assert(text[0] == '9');
        },
    }
}

/// Every export is 1080 pixels wide and as high as its ratio makes it, and
/// the four ratios are 4:5, 1:1, 3:4 and 9:16.
pub proof fn every_export_is_1080_wide(preset: ExportPreset)
    ensures
        preset.size_spec().0 == 1080,
        preset is Feed4x5 ==> preset.size_spec().1 * 4 == 1080 * 5,
        preset is Square ==> preset.size_spec().1 == 1080,
        preset is Grid3x4 ==> preset.size_spec().1 * 3 == 1080 * 4,
        preset is Story9x16 ==> preset.size_spec().1 * 9 == 1080 * 16,
        preset.size_spec().0 * preset.aspect_spec().ratio_spec().1 == preset.size_spec().1
            * preset.aspect_spec().ratio_spec().0,
{
}

/// A preset is read from its name, its ratio or its use, and a text that is
/// none of them names no preset.
pub proof fn a_text_names_one_preset(text: Seq<char>)
    ensures
        ExportPreset::named(text) matches Some(preset) ==> {
            ||| text == preset.name_spec()
            ||| preset is Feed4x5 && (text == "4:5"@ || text == "feed"@)
            ||| preset is Square && (text == "1:1"@ || text == "square"@)
            ||| preset is Grid3x4 && (text == "3:4"@ || text == "grid"@)
            ||| preset is Story9x16 && (text == "9:16"@ || text == "story"@ || text == "reel"@)
        },
        text == "4x5"@ || text == "4:5"@ || text == "feed"@ ==> ExportPreset::named(text)
            == Some(ExportPreset::Feed4x5),
        text == "1x1"@ || text == "1:1"@ || text == "square"@ ==> ExportPreset::named(text)
            == Some(ExportPreset::Square),
        text == "3x4"@ || text == "3:4"@ || text == "grid"@ ==> ExportPreset::named(text)
            == Some(ExportPreset::Grid3x4),
        text == "9x16"@ || text == "9:16"@ || text == "story"@ || text == "reel"@
            ==> ExportPreset::named(text) == Some(ExportPreset::Story9x16),
{
    reveal_strlit("4x5");
    reveal_strlit("4:5");
    reveal_strlit("feed");
    reveal_strlit("1x1");
    reveal_strlit("1:1");
    reveal_strlit("square");
    reveal_strlit("3x4");
    reveal_strlit("3:4");
    reveal_strlit("grid");
    reveal_strlit("9x16");
    reveal_strlit("9:16");
    reveal_strlit("story");
    reveal_strlit("reel");
    assert("4x5"@[0] == '4' && "4:5"@[0] == '4' && "feed"@[0] == 'f');
    assert("1x1"@[0] == '1' && "1:1"@[0] == '1' && "square"@[0] == 's' && "square"@[1] == 'q');
    assert("3x4"@[0] == '3' && "3:4"@[0] == '3' && "grid"@[0] == 'g');
    assert("9x16"@[0] == '9' && "9:16"@[0] == '9' && "story"@[0] == 's' && "story"@[1] == 't');
    assert("reel"@[0] == 'r');
}

} // verus!
