//! The layout and the colour tags of a decoded video frame, and the codes of
//! its range: what the video pass expands a YCbCr sample with.

use vstd::prelude::*;

verus! {

/// The layout of a decoded frame's planes, which sets the bit depth.
#[derive(Clone, Copy, Debug, PartialEq, Eq, Structural)]
pub enum PlaneFormat {
    /// 8 bit luma, then interleaved 8 bit Cb and Cr at half size.
    Nv12,
    /// 16 bit words holding 10 bit samples in their top bits, luma then
    /// interleaved Cb and Cr.
    P010,
}

/// A value as a texture sampler returns it: so many parts of `over`.
#[derive(Clone, Copy, Debug, PartialEq, Eq, Structural)]
pub struct Sampled {
    pub parts: u32,
    pub over: u32,
}

impl PlaneFormat {
    pub open spec fn max_code_spec(self) -> u32 {
        match self {
            PlaneFormat::Nv12 => 255,
            PlaneFormat::P010 => 1023,
        }
    }

    /// Bytes per sample in each plane.
    pub fn bytes_per_sample(self) -> (r: usize)
        ensures
            r == match self {
                PlaneFormat::Nv12 => 1usize,
                PlaneFormat::P010 => 2usize,
            },
    {
        match self {
            PlaneFormat::Nv12 => 1,
            PlaneFormat::P010 => 2,
        }
    }

    /// The largest code the plane can hold: 255, or 1023 for the ten bits.
    pub fn max_code(self) -> (r: u32)
        ensures
            r == self.max_code_spec(),
            self is Nv12 ==> r == 255,
            self is P010 ==> r == 1023,
    {
        match self {
            PlaneFormat::Nv12 => 255,
            PlaneFormat::P010 => 1023,
        }
    }

    /// The parts one code is and what a full sample is over: the byte over
    /// 255, or the 16 bit word (the code shifted up six bits) over 65535.
    pub open spec fn parts_of(self, code: int) -> int {
        match self {
            PlaneFormat::Nv12 => code,
            PlaneFormat::P010 => 64 * code,
        }
    }

    pub open spec fn over_spec(self) -> u32 {
        match self {
            PlaneFormat::Nv12 => 255,
            PlaneFormat::P010 => 65535,
        }
    }

    /// The value a texture sampler returns for a code, which is how the
    /// shader sees it.
    pub fn normalised(self, code: u32) -> (r: Sampled)
        requires
            code <= self.max_code_spec(),
        ensures
            r.parts == self.parts_of(code as int),
            r.over == self.over_spec(),
            self is Nv12 ==> r.parts == code && r.over == 255,
            self is P010 ==> r.parts == 64 * code && r.over == 65535,
            r.parts <= r.over,
    {
        match self {
            PlaneFormat::Nv12 => Sampled { parts: code, over: 255 },
            PlaneFormat::P010 => Sampled { parts: 64 * code, over: 65535 },
        }
    }
}

/// The YCbCr matrix and the primaries of a stream.
#[derive(Clone, Copy, Debug, PartialEq, Eq, Structural)]
pub enum YuvSpace {
    /// BT.709, the SDR default; its primaries equal sRGB's.
    Bt709,
    /// BT.2020, what phone HDR clips carry.
    Bt2020,
}

/// The transfer function of a stream.
#[derive(Clone, Copy, Debug, PartialEq, Eq, Structural)]
pub enum Transfer {
    /// BT.709 or unspecified: decoded with the sRGB curve as the photos are.
    Sdr,
    /// Hybrid log gamma, ARIB STD-B67, what iPhones record.
    Hlg,
    /// PQ, SMPTE ST 2084. Decoded as HLG.
    Pq,
}

impl Transfer {
    /// The id the shader switches on.
    pub fn id(self) -> (r: u32)
        ensures
            r == if self is Sdr {
                0u32
            } else {
                1u32
            },
    {
        match self {
            Transfer::Sdr => 0,
            Transfer::Hlg | Transfer::Pq => 1,
        }
    }
}

/// The colour tags of a stream.
#[derive(Clone, Copy, Debug, PartialEq, Eq, Structural)]
pub struct VideoColour {
    pub space: YuvSpace,
    pub transfer: Transfer,
    /// Full range (0 to 255) rather than the limited 16 to 235.
    pub full_range: bool,
}

/// The range constants of a plane format in the shader's normalised units,
/// each so many parts of `over`.
#[derive(Clone, Copy, Debug, PartialEq, Eq, Structural)]
pub struct Range {
    /// The code of black.
    pub black: u32,
    /// The distance from black to white in luma.
    pub luma: u32,
    /// The distance from the lowest to the highest chroma code.
    pub chroma: u32,
    /// The code of neutral chroma.
    pub mid: u32,
    /// What a full sample is over.
    pub over: u32,
}

/// The codes a range runs between: black, white, the top of the chroma and
/// its middle.
pub open spec fn codes(format: PlaneFormat, full_range: bool) -> (int, int, int, int) {
    let scale: int = match format {
        PlaneFormat::Nv12 => 1,
        PlaneFormat::P010 => 4,
    };
    if full_range {
        (0, format.max_code_spec() as int, format.max_code_spec() as int, 128 * scale)
    } else {
        (16 * scale, 235 * scale, 240 * scale, 128 * scale)
    }
}

/// The range constants: 16 to 235 and 16 to 240 at 8 bits, 64 to 940 and
/// 64 to 960 at 10 bits, or the whole range when the stream is full range.
pub fn range(format: PlaneFormat, full_range: bool) -> (r: Range)
    ensures
        ({
            let (black, white, chroma_top, mid) = codes(format, full_range);
            &&& r.black == format.parts_of(black)
            &&& r.luma == format.parts_of(white) - format.parts_of(black)
            &&& r.chroma == format.parts_of(chroma_top) - format.parts_of(black)
            &&& r.mid == format.parts_of(mid)
            &&& r.over == format.over_spec()
        }),
        r.luma > 0,
        r.chroma > 0,
        format is Nv12 && !full_range ==> r.black == 16 && r.luma == 219 && r.chroma == 224 && r.mid
            == 128 && r.over == 255,
        format is Nv12 && full_range ==> r.black == 0 && r.luma == 255 && r.chroma == 255 && r.mid
            == 128 && r.over == 255,
        format is P010 && !full_range ==> r.black == 64 * 64 && r.luma == 64 * 876 && r.chroma == 64
            * 896 && r.mid == 64 * 512 && r.over == 65535,
        format is P010 && full_range ==> r.black == 0 && r.luma == 64 * 1023 && r.chroma == 64
            * 1023 && r.mid == 64 * 512 && r.over == 65535,
{
    let scale: u32 = match format {
        PlaneFormat::Nv12 => 1,
        PlaneFormat::P010 => 4,
    };
    let (black, white, chroma_top): (u32, u32, u32) = if full_range {
        (0, format.max_code(), format.max_code())
    } else {
        (16 * scale, 235 * scale, 240 * scale)
    };
    let mid: u32 = 128 * scale;
    let low: Sampled = format.normalised(black);
    let high: Sampled = format.normalised(white);
    let top: Sampled = format.normalised(chroma_top);
    let middle: Sampled = format.normalised(mid);
    Range {
        black: low.parts,
        luma: high.parts - low.parts,
        chroma: top.parts - low.parts,
        mid: middle.parts,
        over: low.over,
    }
}

/// A number as a whole one over another.
#[derive(Clone, Copy, Debug, PartialEq, Eq, Structural)]
pub struct Ratio {
    pub over: i64,
    pub of: i64,
}

/// The luma coefficients of red and blue in ten-thousandths; green has the
/// rest.
pub open spec fn luma_spec(space: YuvSpace) -> (int, int) {
    match space {
        YuvSpace::Bt709 => (2126, 722),
        YuvSpace::Bt2020 => (2627, 593),
    }
}

/// The matrix from expanded Y', Cb, Cr to R'G'B', row by row.
#[derive(Clone, Copy, Debug, PartialEq, Eq)]
pub struct YuvMatrix {
    pub red: [Ratio; 3],
    pub green: [Ratio; 3],
    pub blue: [Ratio; 3],
}

/// The rows of the matrix from expanded Y', Cb, Cr to R'G'B', from the luma
/// coefficients of the space.
pub open spec fn turns_back(m: YuvMatrix, space: YuvSpace) -> bool {
    let (kr, kb) = luma_spec(space);
    let kg = 10000 - kr - kb;
    &&& m.red@[0] == (Ratio { over: 1, of: 1 })
    &&& m.red@[1] == (Ratio { over: 0, of: 1 })
    &&& m.red@[2].over == 2 * (10000 - kr)
    &&& m.red@[2].of == 10000
    &&& m.green@[0] == (Ratio { over: 1, of: 1 })
    &&& m.green@[1].over == -2 * kb * (10000 - kb)
    &&& m.green@[1].of == 10000 * kg
    &&& m.green@[2].over == -2 * kr * (10000 - kr)
    &&& m.green@[2].of == 10000 * kg
    &&& m.blue@[0] == (Ratio { over: 1, of: 1 })
    &&& m.blue@[1].over == 2 * (10000 - kb)
    &&& m.blue@[1].of == 10000
    &&& m.blue@[2] == (Ratio { over: 0, of: 1 })
}

/// The matrix from expanded Y', Cb, Cr (Cb and Cr from -0.5 to 0.5) to
/// R'G'B', from the luma coefficients of the space.
pub fn yuv_matrix(space: YuvSpace) -> (r: YuvMatrix)
    ensures
        turns_back(r, space),
        space is Bt709 ==> r.red@[2].over == 15_748 && r.blue@[1].over == 18_556,
        space is Bt2020 ==> r.red@[2].over == 14_746 && r.blue@[1].over == 18_814,
{
    proof {
        assert(-2 * 722 * 9278 == -13_397_432 && -2 * 2126 * 7874 == -33_480_248)
            by (nonlinear_arith);
        assert(-2 * 593 * 9407 == -11_156_702 && -2 * 2627 * 7373 == -38_737_742)
            by (nonlinear_arith);
    }
    let one: Ratio = Ratio { over: 1, of: 1 };
    let none: Ratio = Ratio { over: 0, of: 1 };
    match space {
        YuvSpace::Bt709 => YuvMatrix {
            red: [one, none, Ratio { over: 15_748, of: 10_000 }],
            green: [
                one,
                Ratio { over: -13_397_432, of: 71_520_000 },
                Ratio { over: -33_480_248, of: 71_520_000 },
            ],
            blue: [one, Ratio { over: 18_556, of: 10_000 }, none],
        },
        YuvSpace::Bt2020 => YuvMatrix {
            red: [one, none, Ratio { over: 14_746, of: 10_000 }],
            green: [
                one,
                Ratio { over: -11_156_702, of: 67_800_000 },
                Ratio { over: -38_737_742, of: 67_800_000 },
            ],
            blue: [one, Ratio { over: 18_814, of: 10_000 }, none],
        },
    }
}

/// The matrix turns a colour back: the Y', Cb and Cr that the luma
/// coefficients make of a red, a green and a blue come out of its rows as the
/// same red, green and blue. In ten-thousandths, Y' is `luma`, Cb is `cb` over
/// twice the rest of blue's coefficient and Cr is `cr` over twice the rest of
/// red's; each row is stated with its divisions multiplied out.
pub proof fn the_matrix_turns_a_colour_back(
    m: YuvMatrix,
    space: YuvSpace,
    red: int,
    green: int,
    blue: int,
)
    requires
        turns_back(m, space),
    ensures
        ({
            let (kr, kb) = luma_spec(space);
            let kg = 10000 - kr - kb;
            let luma = kr * red + kg * green + kb * blue;
            let (cb, cr) = (10000 * blue - luma, 10000 * red - luma);
            let (rest_of_blue, rest_of_red) = (2 * (10000 - kb), 2 * (10000 - kr));
            &&& m.red@[2].of * rest_of_red * (10000 * red - luma) == m.red@[2].over * 10000 * cr
            &&& m.blue@[1].of * rest_of_blue * (10000 * blue - luma) == m.blue@[1].over * 10000
                * cb
            &&& m.green@[1].of == m.green@[2].of
            &&& m.green@[1].of * rest_of_blue * rest_of_red * (10000 * green - luma)
                == m.green@[1].over * 10000 * cb * rest_of_red + m.green@[2].over * 10000 * cr
                * rest_of_blue
        }),
{
    match space {
        YuvSpace::Bt709 => {
            assert(-2 * 722 * 9278 == -13_397_432 && -2 * 2126 * 7874 == -33_480_248)
                by (nonlinear_arith);
            let luma = 2126 * red + 7152 * green + 722 * blue;
            let (cb, cr) = (10000 * blue - luma, 10000 * red - luma);
            assert(71_520_000 * 18_556 * 15_748 * (10000 * green - luma) == (-13_397_432) * 10000
                * cb * 15_748 + (-33_480_248) * 10000 * cr * 18_556) by (nonlinear_arith)
                requires
                    luma == 2126 * red + 7152 * green + 722 * blue,
                    cb == 10000 * blue - luma,
                    cr == 10000 * red - luma,
            ;
            assert(m.green@[1].over == -13_397_432 && m.green@[2].over == -33_480_248);
            assert(m.red@[2].over == 15_748 && m.blue@[1].over == 18_556);
        },
        YuvSpace::Bt2020 => {
            assert(-2 * 593 * 9407 == -11_156_702 && -2 * 2627 * 7373 == -38_737_742)
                by (nonlinear_arith);
            let luma = 2627 * red + 6780 * green + 593 * blue;
            let (cb, cr) = (10000 * blue - luma, 10000 * red - luma);
            assert(67_800_000 * 18_814 * 14_746 * (10000 * green - luma) == (-11_156_702) * 10000
                * cb * 14_746 + (-38_737_742) * 10000 * cr * 18_814) by (nonlinear_arith)
                requires
                    luma == 2627 * red + 6780 * green + 593 * blue,
                    cb == 10000 * blue - luma,
                    cr == 10000 * red - luma,
            ;
            assert(m.green@[1].over == -11_156_702 && m.green@[2].over == -38_737_742);
            assert(m.red@[2].over == 14_746 && m.blue@[1].over == 18_814);
        },
    }
}

/// The matrix from a stream's linear primaries to linear Rec.2020.
#[derive(Clone, Copy, Debug, PartialEq, Eq, Structural)]
pub enum Primaries {
    SrgbToRec2020,
    Identity,
}

/// The matrix from the space's linear primaries to linear Rec.2020: BT.709
/// has sRGB's primaries, and BT.2020 is there already.
pub fn primaries_matrix(space: YuvSpace) -> (r: Primaries)
    ensures
        r is Identity <==> space is Bt2020,
{
    match space {
        YuvSpace::Bt709 => Primaries::SrgbToRec2020,
        YuvSpace::Bt2020 => Primaries::Identity,
    }
}

/// The luma coefficients of a space are those of its standard: BT.709's or
/// BT.2020's, and with green's they add up to one.
pub proof fn the_coefficients_of_a_space_add_up(space: YuvSpace)
    ensures
        space is Bt709 ==> luma_spec(space).0 == 2126 && luma_spec(space).1 == 722,
        space is Bt2020 ==> luma_spec(space).0 == 2627 && luma_spec(space).1 == 593,
        luma_spec(space).0 + luma_spec(space).1 < 10000,
{
}

/// The range of a stream runs from its black to its white: 16 to 235 and 240
/// at 8 bits, four times as much at 10, the whole range when it is full, and
/// the chroma has its middle at half the codes.
pub proof fn a_range_runs_from_black_to_white(format: PlaneFormat, full_range: bool)
    ensures
        ({
            let (black, white, top, mid) = codes(format, full_range);
            let scale: int = if format is Nv12 {
                1
            } else {
                4
            };
            &&& full_range ==> black == 0 && white == 256 * scale - 1 && top == white
            &&& !full_range ==> black == 16 * scale && white == 235 * scale && top == 240 * scale
            &&& mid == 128 * scale
        }),
{
}

} // verus!
