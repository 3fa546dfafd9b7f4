//! Where the pixels of a render are on the photo, and the size of the proxy
//! an auto stroke reads its colours from.

use crate::crop::CropRect;
use vstd::prelude::*;

verus! {

/// Where the pixels of a render are on the photo.
#[derive(Clone, Copy, Debug)]
pub struct Geometry {
    /// The part of the photo the render shows.
    pub window: CropRect,
    /// The size of the render in pixels.
    pub size: (u32, u32),
    /// The size of the uncropped photo in pixels.
    pub photo: (u32, u32),
}

impl Geometry {
    /// A render of the whole photo.
    pub fn full(size: (u32, u32), photo: (u32, u32)) -> (r: Geometry)
        ensures
            r.window == CropRect::full_spec(),
            r.size == size,
            r.photo == photo,
    {
        Geometry { window: CropRect::full(), size, photo }
    }

    /// What a length in pixels is over to measure distances: the longer side
    /// of the photo, and at least 1.
    pub fn longer_side(&self) -> (r: u32)
        ensures
            r >= self.photo.0,
            r >= self.photo.1,
            r >= 1,
            r == self.photo.0 || r == self.photo.1 || r == 1,
    {
        let longer: u32 = if self.photo.0 > self.photo.1 {
            self.photo.0
        } else {
            self.photo.1
        };
        if longer < 1 {
            1
        } else {
            longer
        }
    }
}

/// The longer side of the reference proxy in pixels.
pub const PROXY_LONG_SIDE: u32 = 1024;

/// The whole source reduced so its longer side is [`PROXY_LONG_SIDE`] pixels:
/// what an auto dab reads its reference from.
#[derive(Clone, Copy, Debug, PartialEq, Eq)]
pub struct Proxy {
    pub size: (u32, u32),
}

pub open spec fn at_least_one(side: int) -> int {
    if side < 1 {
        1
    } else {
        side
    }
}

/// A side of a source scaled as its longer side goes to the proxy's, rounded
/// to the nearest pixel.
pub open spec fn scaled(side: int, long: int) -> int {
    (side * PROXY_LONG_SIDE + long / 2) / long
}

pub open spec fn longer_of(source: (u32, u32)) -> int {
    if source.0 > source.1 {
        source.0 as int
    } else {
        source.1 as int
    }
}

impl Proxy {
    /// The size of the proxy of a source. A source that is smaller than the
    /// proxy keeps its size.
    pub fn size_for(source: (u32, u32)) -> (r: (u32, u32))
        ensures
            longer_of(source) <= PROXY_LONG_SIDE ==> r.0 == at_least_one(source.0 as int) && r.1
                == at_least_one(source.1 as int),
            longer_of(source) > PROXY_LONG_SIDE ==> r.0 == at_least_one(
                scaled(source.0 as int, longer_of(source)),
            ) && r.1 == at_least_one(scaled(source.1 as int, longer_of(source))),
            1 <= r.0 <= PROXY_LONG_SIDE,
            1 <= r.1 <= PROXY_LONG_SIDE,
            longer_of(source) > PROXY_LONG_SIDE && source.0 == longer_of(source) ==> r.0
                == PROXY_LONG_SIDE,
            longer_of(source) > PROXY_LONG_SIDE && source.1 == longer_of(source) ==> r.1
                == PROXY_LONG_SIDE,
    {
        let long: u32 = if source.0 > source.1 {
            source.0
        } else {
            source.1
        };
        if long <= PROXY_LONG_SIDE {
            return (
                if source.0 < 1 {
                    1
                } else {
                    source.0
                },
                if source.1 < 1 {
                    1
                } else {
                    source.1
                },
            );
        }
        (proxy_side(source.0, long), proxy_side(source.1, long))
    }
}

fn proxy_side(side: u32, long: u32) -> (r: u32)
    requires
        side <= long,
        PROXY_LONG_SIDE < long,
    ensures
        r == at_least_one(scaled(side as int, long as int)),
        1 <= r <= PROXY_LONG_SIDE,
        side == long ==> r == PROXY_LONG_SIDE,
{
    let parts: u64 = (side as u64) * 1024 + (long as u64) / 2;
    let rounded: u64 = parts / (long as u64);
    proof {
        assert(rounded <= PROXY_LONG_SIDE && (side == long ==> rounded == PROXY_LONG_SIDE))
            by (nonlinear_arith)
            requires
                rounded == parts / (long as u64),
                parts == side * 1024 + (long as u64) / 2,
                side <= long,
                long > 1024,
        ;
    }
    if rounded < 1 {
        1
    } else {
        rounded as u32
    }
}

/// A source that fits the proxy keeps its size, and the size of a proxy is
/// the size of its own proxy.
pub proof fn a_proxy_is_its_own_proxy(size: (u32, u32))
    requires
        1 <= size.0 <= PROXY_LONG_SIDE,
        1 <= size.1 <= PROXY_LONG_SIDE,
    ensures
        longer_of(size) <= PROXY_LONG_SIDE,
        at_least_one(size.0 as int) == size.0,
        at_least_one(size.1 as int) == size.1,
{
}

/// A side of a proxy is the nearest whole number to the side of the source
/// scaled as its longer side goes to 1024: it is off by half a pixel at most.
pub proof fn a_scaled_side_is_the_nearest(side: int, long: int)
    requires
        0 <= side <= long,
        0 < long,
    ensures
        2 * (scaled(side, long) * long - side * 1024) <= long,
        2 * (side * 1024 - scaled(side, long) * long) <= long,
        scaled(long, long) == 1024,
{
    vstd::arithmetic::div_mod::lemma_fundamental_div_mod(side * 1024 + long / 2, long);
    vstd::arithmetic::div_mod::lemma_fundamental_div_mod(long * 1024 + long / 2, long);
    let q = (side * 1024 + long / 2) / long;
    assert(q * long == long * q) by (nonlinear_arith);
    let p = (long * 1024 + long / 2) / long;
    assert(p == 1024) by (nonlinear_arith)
        requires
            long * 1024 + long / 2 == long * p + (long * 1024 + long / 2) % long,
            0 <= (long * 1024 + long / 2) % long < long,
            0 <= long / 2 < long,
            long > 0,
    ;
}

/// The longer side is at least both sides and is one of them; a side of a
/// proxy is never under 1.
pub proof fn the_longer_side_is_a_side(source: (u32, u32), side: int)
    ensures
        longer_of(source) >= source.0 && longer_of(source) >= source.1,
        longer_of(source) == source.0 || longer_of(source) == source.1,
        at_least_one(side) >= 1,
        side >= 1 ==> at_least_one(side) == side,
        side <= 1 ==> at_least_one(side) == 1,
{
}

} // verus!
