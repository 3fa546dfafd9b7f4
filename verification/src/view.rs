//! The view of the open picture: how far it is zoomed and which part of it
//! sits in the middle of the Viewer tab. A view belongs to the open file and
//! to the window; it is never saved.
//!
//! A scale is output pixels per source pixel, so 1.0 is 100 percent. The
//! least scale is the one that fits the whole picture into the tab and the
//! view at that scale is [`Zoom::Fit`], which keeps fitting when the tab is
//! resized. The scale that fits and the sizes in points are measured outside;
//! here is what is held to them.

use crate::num::{single, Single, HALF};
use vstd::prelude::*;

verus! {

/// The most a picture is magnified: 800 percent, unless fitting the tab
/// already takes more. The bits of 8.
pub const MAX_SCALE: u32 = 0x4100_0000;

/// How far the picture is zoomed.
#[derive(Clone, Copy, Debug)]
pub enum Zoom {
    /// The whole picture, as large as the tab allows.
    Fit,
    /// Output pixels per source pixel.
    Scale(Single),
}

/// The zoom and the point of the picture in the middle of the tab,
/// normalised to the uncropped picture.
#[derive(Clone, Copy, Debug)]
pub struct View {
    pub zoom: Zoom,
    pub centre_x: Single,
    pub centre_y: Single,
}

impl View {
    pub open spec fn default_spec() -> View {
        View { zoom: Zoom::Fit, centre_x: single(HALF), centre_y: single(HALF) }
    }
}

impl Default for View {
    fn default() -> (r: Self)
        ensures
            r == View::default_spec(),
    {
        View { zoom: Zoom::Fit, centre_x: Single { bits: HALF }, centre_y: Single { bits: HALF } }
    }
}

pub open spec fn max_scale_spec(fit: Single) -> Single {
    if single(MAX_SCALE).below(fit) {
        fit
    } else {
        single(MAX_SCALE)
    }
}

/// The most the picture is magnified in a tab whose fit scale is `fit`.
pub fn max_scale(fit: Single) -> (r: Single)
    ensures
        r == max_scale_spec(fit),
{
    if (Single { bits: MAX_SCALE }).is_below(fit) {
        fit
    } else {
        Single { bits: MAX_SCALE }
    }
}

/// One axis of a picture in a tab: whether it fits, and, where it does not,
/// the least and the most its centre may be so that it still covers the tab.
#[derive(Clone, Copy, Debug)]
pub struct Axis {
    pub fits: bool,
    pub least: Single,
    pub most: Single,
}

impl Axis {
    pub open spec fn centre_spec(self, centre: Single) -> Single {
        if self.fits {
            single(HALF)
        } else {
            centre.held(self.least, self.most)
        }
    }

    /// Where the centre is held: in the middle where the picture fits.
    pub fn centre(&self, centre: Single) -> (r: Single)
        ensures
            r == self.centre_spec(centre),
    {
        if self.fits {
            Single { bits: HALF }
        } else {
            centre.clamped(self.least, self.most)
        }
    }
}

impl View {
    pub open spec fn scale_spec(self, fit: Single) -> Single {
        match self.zoom {
            Zoom::Fit => fit,
            Zoom::Scale(scale) => scale.held(fit, max_scale_spec(fit)),
        }
    }

    /// The scale this view shows at.
    pub fn scale(&self, fit: Single) -> (r: Single)
        ensures
            r == self.scale_spec(fit),
    {
        match self.zoom {
            Zoom::Fit => fit,
            Zoom::Scale(scale) => scale.clamped(fit, max_scale(fit)),
        }
    }

    pub open spec fn clamped_spec(self, fit: Single, snap: Single, x: Axis, y: Axis) -> View {
        let scale = self.scale_spec(fit);
        if scale.at_most(snap) {
            View::default_spec()
        } else {
            View {
                zoom: Zoom::Scale(scale),
                centre_x: x.centre_spec(self.centre_x),
                centre_y: y.centre_spec(self.centre_y),
            }
        }
    }

    /// The view with its scale inside the limits, Fit up to the scale that
    /// snaps to it, and its centre held so that a picture larger than the tab
    /// covers it and a smaller one is centred. The axes are those of the
    /// picture at [`View::scale`].
    pub fn clamped(&self, fit: Single, snap: Single, x: Axis, y: Axis) -> (r: View)
        ensures
            r == self.clamped_spec(fit, snap, x, y),
    {
        let scale: Single = self.scale(fit);
        if scale.is_at_most(snap) {
            return View::default();
        }
        View {
            zoom: Zoom::Scale(scale),
            centre_x: x.centre(self.centre_x),
            centre_y: y.centre(self.centre_y),
        }
    }
}

/// A scale is held between the fit scale and the most: a view never shows
/// less than the whole picture fitted, nor more than 800 percent unless
/// fitting takes more.
pub proof fn a_scale_is_held_between_fit_and_the_most(view: View, fit: Single)
    requires
        fit.finite(),
        view.zoom matches Zoom::Scale(scale) ==> !scale.is_nan_spec(),
    ensures
        fit.at_most(view.scale_spec(fit)),
        view.scale_spec(fit).at_most(max_scale_spec(fit)),
{
}

/// Holding a view twice holds it once: the view of the next frame starts from
/// where this one ended.
pub proof fn a_clamped_view_stays(view: View, fit: Single, snap: Single, x: Axis, y: Axis)
    requires
        fit.at_most(snap),
        x.least.at_most(x.most),
        y.least.at_most(y.most),
    ensures
        view.clamped_spec(fit, snap, x, y).clamped_spec(fit, snap, x, y) == view.clamped_spec(
            fit,
            snap,
            x,
            y,
        ),
{
}

/// The most a picture is magnified is 800 percent, or what fits it where that
/// is more.
pub proof fn the_most_is_eight_or_the_fit(fit: Single)
    requires
        !fit.is_nan_spec(),
    ensures
        fit.at_most(max_scale_spec(fit)),
        single(0x4100_0000).at_most(max_scale_spec(fit)),
        max_scale_spec(fit) == fit || max_scale_spec(fit).bits == 0x4100_0000,
{
}

/// A scale between the fit and the most is shown as it is, one outside at the
/// nearest of the two, and Fit at the scale that fits.
pub proof fn a_scale_inside_the_limits_is_shown_as_it_is(view: View, fit: Single)
    requires
        fit.finite(),
    ensures
        view.zoom is Fit ==> view.scale_spec(fit) == fit,
        view.zoom matches Zoom::Scale(scale) ==> (fit.at_most(scale) && scale.at_most(
            max_scale_spec(fit),
        ) ==> view.scale_spec(fit) == scale),
        view.zoom matches Zoom::Scale(scale) && scale.below(fit) ==> view.scale_spec(fit) == fit,
        view.zoom matches Zoom::Scale(scale) && max_scale_spec(fit).below(scale)
            ==> view.scale_spec(fit) == max_scale_spec(fit),
{
}

/// A view up to the scale that snaps is Fit in the middle of the picture, and
/// above it keeps its scale, and its centre wherever the picture still covers
/// the tab; an axis that fits is centred.
pub proof fn a_view_keeps_its_scale_and_centre(
    view: View,
    fit: Single,
    snap: Single,
    x: Axis,
    y: Axis,
)
    requires
        x.least.at_most(x.most),
        y.least.at_most(y.most),
    ensures
        view.scale_spec(fit).at_most(snap) ==> ({
            let now = view.clamped_spec(fit, snap, x, y);
            &&& now.zoom is Fit
            &&& now.centre_x.bits == 0x3f00_0000 && now.centre_y.bits == 0x3f00_0000
        }),
        !view.scale_spec(fit).at_most(snap) ==> ({
            let now = view.clamped_spec(fit, snap, x, y);
            &&& now.zoom == Zoom::Scale(view.scale_spec(fit))
            &&& x.fits ==> now.centre_x.bits == 0x3f00_0000
            &&& y.fits ==> now.centre_y.bits == 0x3f00_0000
            &&& !x.fits && x.least.at_most(view.centre_x) && view.centre_x.at_most(x.most)
                ==> now.centre_x == view.centre_x
            &&& !y.fits && y.least.at_most(view.centre_y) && view.centre_y.at_most(y.most)
                ==> now.centre_y == view.centre_y
            &&& !x.fits && view.centre_x.below(x.least) ==> now.centre_x == x.least
            &&& !y.fits && view.centre_y.below(y.least) ==> now.centre_y == y.least
            &&& !x.fits && x.most.below(view.centre_x) ==> now.centre_x == x.most
            &&& !y.fits && y.most.below(view.centre_y) ==> now.centre_y == y.most
        }),
{
}

} // verus!
