use gamut::edge::{doubling, reach, run, shift, Pass, Plan, Run};

/// The half-width of each axis run of the octagon as a share of the shift.
const OCTAGON_AXIS: f32 = 0.398;

/// The steps of each diagonal run of the octagon as a share of the shift.
const OCTAGON_DIAGONAL: f32 = 0.281;

const RUNS: [(i32, i32); 4] = [(1, 0), (0, 1), (1, 1), (1, -1)];

/// Everything at rest on a whole picture.
fn rest(size: (u32, u32)) -> Plan {
    Plan {
        full: size,
        origin: (0, 0),
        size,
        grow: false,
        axis: 0,
        diagonal: 0,
        feather: false,
        step: 1,
        radius_cells: 0,
        contrast: false,
    }
}

/// Shift edge by a share of the longer side of a whole picture.
fn shifted(amount: f32, full: (u32, u32), size: (u32, u32)) -> Plan {
    let r = amount.abs() * full.0.max(full.1) as f32;
    Plan {
        full,
        grow: amount > 0.0,
        axis: (r * OCTAGON_AXIS).round() as u32,
        diagonal: (r * OCTAGON_DIAGONAL).round() as u32,
        ..rest(size)
    }
}

fn code(alpha: f32) -> u8 {
    (alpha.clamp(0.0, 1.0) * 255.0).round() as u8
}

fn at(x: i32, y: i32, size: (u32, u32)) -> usize {
    let x = x.clamp(0, size.0 as i32 - 1);
    let y = y.clamp(0, size.1 as i32 - 1);
    (y as u32 * size.0 + x as u32) as usize
}

/// Stored alphas with every code, in a pattern that holds edges both ways.
fn busy(size: (u32, u32)) -> Vec<u8> {
    (0..size.0 * size.1)
        .map(|i| {
            let (x, y) = ((i % size.0) as f32, (i / size.0) as f32);
            let v = 0.5 + 0.5 * ((x * 0.37).sin() * (y * 0.23).cos());
            let hard = if (x - 20.0).abs() < 9.0 && (y - 14.0).abs() < 6.0 {
                1.0
            } else {
                v * 0.6
            };
            code(hard)
        })
        .collect()
}

#[test]
fn the_plan_takes_its_numbers_from_the_whole_picture() {
    // Shift 1 percent of 6000 pixels: r is 60, the axis runs 24 steps a
    // side and the diagonal runs 17.
    let p = shifted(0.01, (6000, 4000), (6000, 4000));
    assert!(p.grow && p.shifts() && !p.feathers() && !p.contrasts());
    assert_eq!((p.axis, p.diagonal), (24, 17));
    assert_eq!(p.shift_reach(), 58);
    let p = shifted(-0.01, (4000, 6000), (4000, 6000));
    assert!(!p.grow);
    assert_eq!((p.axis, p.diagonal, p.reach()), (24, 17, 58));
    // Feather 1 percent of 6000 pixels: cells of 15 and 12 cells of kernel.
    let feathered = Plan {
        feather: true,
        step: 15,
        radius_cells: 12,
        ..rest((6000, 4000))
    };
    assert!(feathered.feathers() && !feathered.shifts());
    assert_eq!(feathered.feather_reach(), 14 * 15);
    // Contrast reads the pixel alone.
    let p = Plan {
        contrast: true,
        ..rest((6000, 4000))
    };
    assert!(p.contrasts() && p.reach() == 0);
    // All three at once add their reaches.
    let p = Plan {
        contrast: true,
        axis: 24,
        diagonal: 17,
        grow: true,
        ..feathered
    };
    assert_eq!(p.reach(), 58 + 210);
    assert_eq!(reach(&p), 268);
    assert_eq!(reach(&rest((6000, 4000))), 0);
    // A shift under about 1.3 pixels takes no step and runs no pass.
    let p = shifted(0.0002, (6000, 4000), (6000, 4000));
    assert!(!p.shifts() && p.is_off() && p.runs().is_empty());
}

#[test]
fn a_run_takes_ceil_log2_of_its_length_in_doubling_passes() {
    assert!(doubling(0).is_empty());
    assert_eq!(doubling(1), vec![1]);
    assert_eq!(doubling(2), vec![1, 1]);
    assert_eq!(doubling(3), vec![1, 2]);
    assert_eq!(doubling(24), vec![1, 2, 4, 8, 9]);
    for half in 1..300u32 {
        let offsets = doubling(half);
        assert_eq!(1 + offsets.iter().sum::<u32>(), half + 1, "{half}");
        assert_eq!(
            offsets.len() as u32,
            (half + 1).next_power_of_two().ilog2(),
            "{half}"
        );
    }
}

/// The maximum (or minimum) over the run's samples, each held inside the
/// render, the long way.
fn direct_run(alpha: &[u8], size: (u32, u32), run: Run, grow: bool) -> Vec<u8> {
    let mut out = vec![0; alpha.len()];
    for y in 0..size.1 as i32 {
        for x in 0..size.0 as i32 {
            let mut v = alpha[at(x, y, size)];
            for i in -(run.half as i32)..=run.half as i32 {
                let s = alpha[at(x + i * run.direction.0, y + i * run.direction.1, size)];
                v = if grow { v.max(s) } else { v.min(s) };
            }
            out[at(x, y, size)] = v;
        }
    }
    out
}

#[test]
fn the_doubling_runs_equal_the_direct_runs_edges_included() {
    let size = (37, 29);
    let alpha = busy(size);
    for grow in [true, false] {
        for direction in RUNS {
            for half in [1, 2, 3, 5, 8, 13, 40] {
                let step = Run { direction, half };
                assert_eq!(
                    run(&alpha, size, step, grow),
                    direct_run(&alpha, size, step, grow),
                    "{direction:?} {half} {grow}"
                );
            }
        }
    }
}

#[test]
fn a_shift_at_rest_gives_the_mask_back_and_the_passes_run_in_order() {
    let size = (48, 40);
    let alpha = busy(size);
    assert!(rest(size).is_off());
    assert_eq!(shift(&alpha, &rest(size)), alpha);
    assert!(rest(size).passes().is_empty());
    let all = Plan {
        feather: true,
        contrast: true,
        ..shifted(0.1, size, size)
    };
    assert_eq!(all.passes(), [Pass::Shift, Pass::Feather, Pass::Contrast]);
    let two = Plan {
        contrast: true,
        ..shifted(0.1, size, size)
    };
    assert_eq!(two.passes(), [Pass::Shift, Pass::Contrast]);
}

/// How far a grown (or shrunk) disc reaches past (or inside) its rim along
/// 360 directions: the least and the most. The render is a window of 520
/// pixels at the corner of a picture of 2000, so r of 100 is inside the
/// range of Shift edge.
fn disc_extent(r_pixels: f32, grow: bool) -> (f32, f32) {
    let side = 520u32;
    let whole = 2000u32;
    let size = (side, side);
    let centre = side as f32 / 2.0;
    let rim = if grow { 60.0 } else { 200.0 };
    let disc: Vec<u8> = (0..side * side)
        .map(|i| {
            let (x, y) = (
                (i % side) as f32 + 0.5 - centre,
                (i / side) as f32 + 0.5 - centre,
            );
            if x * x + y * y <= rim * rim {
                255
            } else {
                0
            }
        })
        .collect();
    let amount = r_pixels / whole as f32;
    let p = shifted(if grow { amount } else { -amount }, (whole, whole), size);
    let out = shift(&disc, &p);
    let value = |d: f32, t: f32| {
        let x = (centre + d * t.cos()).floor() as i32;
        let y = (centre + d * t.sin()).floor() as i32;
        out[at(x, y, size)]
    };
    let mut least = f32::MAX;
    let mut most = 0.0f32;
    for k in 0..360 {
        let t = (k as f32).to_radians();
        let steps = (0..1000).map(|j| j as f32 * 0.25);
        let extent = if grow {
            // The farthest place still inside, past the rim.
            steps.filter(|d| value(*d, t) > 127).fold(0.0f32, f32::max) - rim
        } else {
            // The first place outside, inside the rim.
            rim - steps
                .take_while(|d| value(*d, t) > 127)
                .last()
                .unwrap_or(0.0)
        };
        least = least.min(extent);
        most = most.max(extent);
    }
    (least, most)
}

#[test]
fn a_hard_disc_grown_or_shrunk_by_r_moves_between_0_96_r_and_1_04_r_in_every_direction() {
    // The octagon lies between 0.96 r and 1.04 r; a pixel either way is
    // the grid of the picture and of the sampling.
    for r in [60.0f32, 100.0] {
        for grow in [true, false] {
            let (least, most) = disc_extent(r, grow);
            assert!(
                least >= 0.96 * r - 1.0 && most <= 1.04 * r + 1.0,
                "r {r} grow {grow}: {least} to {most}"
            );
        }
    }
}

/// Where the 0.5 contour of the shifted alpha lands on row 0, between two
/// pixel centres.
fn contour_after(alpha: &Vec<u8>, size: (u32, u32), p: &Plan) -> f32 {
    let out = shift(alpha, p);
    // The first column under 0.5, as a place between two pixel centres.
    let row: Vec<f32> = out[..size.0 as usize]
        .iter()
        .map(|v| *v as f32 / 255.0)
        .collect();
    let first = row.iter().position(|v| *v < 0.5).expect("an edge") as f32;
    if first == 0.0 {
        return 0.0;
    }
    let (a, b) = (row[first as usize - 1], row[first as usize]);
    first - 0.5 + (a - 0.5) / (a - b)
}

#[test]
fn a_straight_edge_moves_round_0_96_r_within_1_pixel_each_way() {
    // A render of 1200 pixels at the corner of a picture of 2400.
    let size = (1200u32, 3u32);
    let whole = (2400u32, 2400u32);
    let edge_at = 600.0;
    let step: Vec<u8> = (0..size.0 * size.1)
        .map(|i| {
            if ((i % size.0) as f32) < edge_at {
                255
            } else {
                0
            }
        })
        .collect();
    let base = contour_after(&step, size, &rest(size));
    assert!((base - edge_at).abs() < 1e-3);
    for r in [16.0f32, 60.0, 100.0] {
        let want = (0.96 * r).round();
        for grow in [true, false] {
            let s = r / whole.0 as f32;
            let p = shifted(if grow { s } else { -s }, whole, size);
            let moved = contour_after(&step, size, &p) - base;
            let moved = if grow { moved } else { -moved };
            assert!(
                (moved - want).abs() <= 1.0,
                "r {r} grow {grow}: moved {moved}, want {want}"
            );
        }
    }
}

#[test]
fn a_ramp_shifted_keeps_its_slope() {
    let size = (800u32, 2u32);
    let ramp: Vec<u8> = (0..size.0 * size.1)
        .map(|i| code(((500.0 - (i % size.0) as f32) / 100.0).clamp(0.0, 1.0)))
        .collect();
    for grow in [true, false] {
        let s = 60.0 / size.0 as f32;
        let p = shifted(if grow { s } else { -s }, size, size);
        let moved = p.shift_reach() as i32 * if grow { 1 } else { -1 };
        let out = shift(&ramp, &p);
        // Every pixel of the ramp is the one `moved` pixels back.
        for x in 300..700i32 {
            let want = ramp[(x - moved).clamp(0, size.0 as i32 - 1) as usize];
            assert_eq!(out[x as usize], want, "{x} {grow}");
        }
    }
}

#[test]
fn a_mask_of_all_1_or_all_0_shifted_is_itself() {
    let size = (64, 48);
    for value in [0u8, 255] {
        let flat = vec![value; 64 * 48];
        for s in [0.2f32, -0.2] {
            let out = shift(&flat, &shifted(s, size, size));
            assert_eq!(out, flat, "{value} {s}");
        }
    }
}

/// A window padded by the reach shifts as the whole does, and one pixel short
/// of it does not.
#[test]
fn a_padded_window_shifts_as_the_whole() {
    let full = (160u32, 120u32);
    let alpha = busy(full);
    let whole_plan = shifted(0.06, full, full);
    let whole = shift(&alpha, &whole_plan);
    let pad = whole_plan.shift_reach();
    assert!(pad > 4);
    let (wx, wy, ww, wh) = (61u32, 43u32, 30u32, 25u32);
    let (x0, y0) = (wx - pad, wy - pad);
    let size = (ww + 2 * pad, wh + 2 * pad);
    let part: Vec<u8> = (0..size.0 * size.1)
        .map(|i| alpha[((y0 + i / size.0) * full.0 + x0 + i % size.0) as usize])
        .collect();
    let window = shift(
        &part,
        &Plan {
            origin: (x0, y0),
            size,
            ..whole_plan
        },
    );
    for y in 0..wh {
        for x in 0..ww {
            assert_eq!(
                whole[((wy + y) * full.0 + wx + x) as usize],
                window[((pad + y) * size.0 + pad + x) as usize]
            );
        }
    }
}

#[test]
fn the_feather_grid_lies_on_the_whole_picture() {
    let p = Plan {
        feather: true,
        step: 4,
        radius_cells: 3,
        full: (6000, 4000),
        origin: (1022, 513),
        size: (900, 700),
        ..rest((900, 700))
    };
    assert_eq!(p.grid(), ((255, 128), (226, 176)));
}
