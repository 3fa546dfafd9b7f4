use gamut::dehaze::{brightest, holds_a_photo, minimum, minimum_pass, patch_radius, Downsample, ATMOSPHERE_EDGE};
use gamut::geometry::{Geometry, Proxy};
use gamut::grid::{among, span, touched};
use gamut::mask::Refine;
use gamut::num::Single;
use gamut::refine::{flood_steps, neighbours, reach, Plan};
use gamut::video::{
    primaries_matrix, range, yuv_matrix, PlaneFormat, Primaries, Ratio, Transfer, YuvSpace,
};

fn n(value: f32) -> Single {
    Single::from_bits(value.to_bits())
}

fn value(number: Single) -> f32 {
    f32::from_bits(number.bits)
}

#[test]
fn the_minimum_filter_spreads_the_darkest_value_over_its_patch() {
    let mut image = vec![n(1.0); 7 * 7];
    image[3 * 7 + 3] = n(0.2);
    let out = minimum(&image, 7, 7, 1);
    for y in 0..7 {
        for x in 0..7 {
            let inside = (2..=4).contains(&x) && (2..=4).contains(&y);
            assert_eq!(out[y * 7 + x], if inside { n(0.2) } else { n(1.0) });
        }
    }
}

#[test]
fn the_minimum_of_a_corner_reads_the_edge() {
    let image = [3.0, 1.0, 2.0, -4.0, 0.5, 9.0].map(n).to_vec();
    let out: Vec<f32> = minimum(&image, 3, 2, 1).into_iter().map(value).collect();
    assert_eq!(out, [-4.0, -4.0, 0.5, -4.0, -4.0, 0.5]);
    let same: Vec<f32> = minimum(&image, 3, 2, 0).into_iter().map(value).collect();
    assert_eq!(same, [3.0, 1.0, 2.0, -4.0, 0.5, 9.0]);
}

#[test]
fn the_patch_scales_with_the_short_edge() {
    assert_eq!(patch_radius(64, 64), 1);
    assert_eq!(patch_radius(1280, 1600), 10);
    assert_eq!(patch_radius(0, 0), 1);
    // What the fraction of the short edge rounds up to in single precision.
    for short in 0..20_000u32 {
        let want = ((0.015f32 * short as f32 / 2.0).ceil() as i32).max(1);
        assert_eq!(patch_radius(short, short + 7), want, "{short}");
    }
}

#[test]
fn the_brightest_come_first_and_equal_ones_in_their_order() {
    let values = [0.3, 0.9, 0.1, 0.9, 0.5].map(n).to_vec();
    assert_eq!(brightest(&values, 3), [1, 3, 4]);
    assert_eq!(brightest(&values, 5), [1, 3, 4, 0, 2]);
    assert!(brightest(&values, 0).is_empty());
}

#[test]
fn a_downsample_covers_the_image_in_boxes() {
    let small = Downsample::of(6000, 4000);
    assert_eq!((small.factor, small.width, small.height), (24, 250, 167));
    assert!(small.width <= ATMOSPHERE_EDGE);
    let mut end = 0;
    for i in 0..small.height {
        let (from, to) = small.span(i, 4000);
        assert_eq!(from, end);
        end = to;
    }
    assert_eq!(end, 4000);
    assert_eq!(Downsample::of(32, 32).factor, 1);
    assert!(holds_a_photo(16, 2, 2) && !holds_a_photo(15, 2, 2) && !holds_a_photo(16, 0, 2));
}

#[test]
fn the_proxy_of_a_source_has_a_longer_side_of_1024() {
    assert_eq!(Proxy::size_for((6000, 4000)), (1024, 683));
    assert_eq!(Proxy::size_for((4000, 6000)), (683, 1024));
    assert_eq!(Proxy::size_for((3840, 2160)), (1024, 576));
    assert_eq!(Proxy::size_for((800, 600)), (800, 600));
    assert_eq!(Proxy::size_for((5000, 1)), (1024, 1));
    assert_eq!(Proxy::size_for((0, 5)), (1, 5));
    assert_eq!(Proxy::size_for((100_000, 10)), (1024, 1));
}

#[test]
fn a_full_geometry_shows_the_whole_photo() {
    let geometry = Geometry::full((300, 200), (6000, 4000));
    assert!(geometry.window.is_full());
    assert_eq!((geometry.size, geometry.photo), ((300, 200), (6000, 4000)));
    assert_eq!(geometry.longer_side(), 6000);
    assert_eq!(Geometry::full((1, 1), (0, 0)).longer_side(), 1);
}

fn plan(step: u32, cells: u32, flood: u32) -> Plan {
    Plan {
        full: (6000, 4000),
        origin: (0, 0),
        size: (6000, 4000),
        step,
        cells,
        flood,
    }
}

#[test]
fn the_plan_takes_its_cells_from_the_whole_picture() {
    // The flood spreads 15 cells, the radius in cells: three boxes, the
    // two cells beside of the gathers, the cell beside of the reached
    // field and its 15.
    let p = plan(4, 11, 15);
    assert_eq!(p.margin(), 51);
    assert_eq!(p.reach(), 212);
    // A window of the same picture has the same cells, counted from the
    // cell its first pixel lies in.
    let window = Plan {
        origin: (1022, 513),
        size: (900, 700),
        ..p
    };
    assert_eq!(window.grid(), ((255, 128), (226, 176)));
    let refine = |amount: f32| Refine {
        amount: n(amount),
        ..Refine::default()
    };
    assert_eq!(reach(&refine(0.0), &p), 0, "off");
    assert_eq!(reach(&refine(100.0), &p), 212);
}

#[test]
fn the_cells_at_the_far_edge_hold_the_pixels_there_are() {
    // 10 pixels in cells of 4: the last cell holds two.
    let p = Plan {
        full: (10, 4),
        origin: (0, 0),
        size: (10, 4),
        step: 4,
        cells: 1,
        flood: 1,
    };
    assert_eq!(p.grid(), ((0, 0), (3, 1)));
    assert_eq!(span(2, 0, 10, 4), (8, 10));
    assert_eq!(span(1, 0, 10, 4), (4, 8));
    // A window that begins inside a cell holds the rest of it.
    assert_eq!(touched(6, 7, 4), (1, 3));
    assert_eq!(span(0, 6, 7, 4), (0, 2));
    assert_eq!(span(2, 6, 7, 4), (6, 7));
}

#[test]
fn a_pixel_lies_between_the_cells_its_float_place_says() {
    for step in 1..=16u32 {
        for origin in [0u32, 1, 5, 37, 1022] {
            let size = 90u32;
            let (first, count) = touched(origin, size, step);
            for pixel in 0..size {
                let u = ((origin + pixel) as f32 + 0.5) / step as f32 - 0.5 - first as f32;
                let low = u.floor();
                let clamp = |i: f32| (i.max(0.0) as u32).min(count - 1);
                assert_eq!(
                    among(pixel, origin, size, step),
                    (clamp(low), clamp(low + 1.0)),
                    "{step} {origin} {pixel}"
                );
            }
        }
    }
}

#[test]
fn the_flood_doubles_its_steps_while_they_fit() {
    assert!(flood_steps(0).is_empty());
    assert_eq!(flood_steps(1), [1]);
    assert_eq!(flood_steps(2), [1]);
    assert_eq!(flood_steps(7), [1, 2, 4]);
    assert_eq!(flood_steps(15), [1, 2, 4, 8]);
    assert_eq!(flood_steps(16), [1, 2, 4, 8]);
}

#[test]
fn the_eight_cells_around_are_held_to_the_grid() {
    assert_eq!(neighbours(1, 1, 1, (3, 3)), [5, 3, 7, 1, 8, 2, 6, 0]);
    assert_eq!(neighbours(0, 0, 2, (3, 2)), [2, 0, 3, 0, 5, 2, 3, 0]);
}

#[test]
fn a_plane_sets_its_bytes_and_its_codes() {
    assert_eq!(PlaneFormat::Nv12.bytes_per_sample(), 1);
    assert_eq!(PlaneFormat::P010.bytes_per_sample(), 2);
    assert_eq!(PlaneFormat::Nv12.max_code(), 255);
    assert_eq!(PlaneFormat::P010.max_code(), 1023);
    let word = PlaneFormat::P010.normalised(940);
    assert_eq!((word.parts, word.over), (60160, 65535));
    assert_eq!(
        [Transfer::Sdr, Transfer::Hlg, Transfer::Pq].map(|t| t.id()),
        [0, 1, 1]
    );
}

#[test]
fn the_matrices_turn_the_primaries_white_and_red_back() {
    let apply = |row: [Ratio; 3], px: [f64; 3]| -> f64 {
        row.iter()
            .zip(px)
            .map(|(m, c)| m.over as f64 / m.of as f64 * c)
            .sum()
    };
    for space in [YuvSpace::Bt709, YuvSpace::Bt2020] {
        let m = yuv_matrix(space);
        for row in [m.red, m.green, m.blue] {
            assert_eq!(apply(row, [1.0, 0.0, 0.0]), 1.0);
        }
    }
    // BT.709 red: Y' 0.2126, Cb -0.2126/1.8556, Cr 0.5.
    let m = yuv_matrix(YuvSpace::Bt709);
    let red = [0.2126, -0.2126 / 1.8556, 0.5];
    assert!((apply(m.red, red) - 1.0).abs() < 1e-4);
    assert!(apply(m.green, red).abs() < 1e-4);
    assert!(apply(m.blue, red).abs() < 1e-4);
    let ten = range(PlaneFormat::P010, false);
    assert_eq!((ten.black, ten.over), (4096, 65535));
    assert_eq!(ten.luma, 60160 - 4096);
    let full = range(PlaneFormat::Nv12, true);
    assert_eq!((full.black, full.luma, full.chroma, full.mid), (0, 255, 255, 128));
    let limited = range(PlaneFormat::Nv12, false);
    assert_eq!((limited.luma, limited.chroma), (219, 224));
    assert_eq!(primaries_matrix(YuvSpace::Bt2020), Primaries::Identity);
    assert_eq!(primaries_matrix(YuvSpace::Bt709), Primaries::SrgbToRec2020);
}

#[test]
fn the_minimum_leaves_out_what_is_not_a_number() {
    let image: Vec<Single> = [f32::NAN, 2.0, f32::INFINITY, f32::NEG_INFINITY]
        .iter()
        .map(|v| n(*v))
        .collect();
    let out: Vec<f32> = minimum(&image, 4, 1, 0).into_iter().map(value).collect();
    assert_eq!(out, [f32::MAX, 2.0, f32::MAX, f32::NEG_INFINITY]);
    let wide: Vec<f32> = minimum(&image, 4, 1, 1).into_iter().map(value).collect();
    assert_eq!(wide, [2.0, 2.0, f32::NEG_INFINITY, f32::NEG_INFINITY]);
    assert!(minimum(&Vec::new(), 0, 5, 2).is_empty());
}

#[test]
fn the_largest_sides_are_counted() {
    let small = Downsample::of(u32::MAX, 1);
    assert_eq!((small.factor, small.width, small.height), (1 << 24, 256, 1));
    assert_eq!(small.span(255, u32::MAX), (255 << 24, u32::MAX));
    let steps = flood_steps(u32::MAX);
    assert_eq!((steps.len(), steps[31]), (32, 1 << 31));
    let origin = 0xffff_ff00;
    assert_eq!(touched(origin, 255, 16), (0x0fff_fff0, 16));
    assert_eq!(span(15, origin, 255, 16), (240, 255));
    assert_eq!(among(8, origin, 255, 16), (0, 1));
    assert_eq!(among(254, origin, 255, 16), (15, 15));
}

#[test]
fn a_pass_of_the_minimum_goes_one_way() {
    let image: Vec<Single> = [4.0, 1.0, 5.0, 2.0, 9.0, 3.0].iter().map(|v| n(*v)).collect();
    let pass = |across| -> Vec<f32> {
        minimum_pass(&image, 3, 2, across, 1)
            .into_iter()
            .map(value)
            .collect()
    };
    assert_eq!(pass(true), [1.0, 1.0, 1.0, 2.0, 2.0, 3.0]);
    assert_eq!(pass(false), [2.0, 1.0, 3.0, 2.0, 1.0, 3.0]);
}
