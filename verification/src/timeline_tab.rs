//! The Timeline tab: what its shortcuts and buttons do, how its ruler is
//! marked, where the clips lie on it, and what a click or a drag on the track
//! means. Space plays and pauses, S splits at the playhead, Delete
//! ripple-deletes the selected clip, Home and End move the playhead, Left and
//! Right step one frame.

use crate::num::Single;
use crate::text::{decimal, push, write_decimal};
use crate::timeline::{run_length, start, under, Clip, Track, TICKS};
use vstd::prelude::*;
use vstd::string::*;

verus! {

/// A number in at least two digits.
pub open spec fn two_digits(value: nat) -> Seq<char> {
    if value < 10 {
        seq!['0'] + decimal(value)
    } else {
        decimal(value)
    }
}

fn write_two_digits(out: &mut String, value: u64)
    ensures
        final(out)@ == old(out)@ + two_digits(value as nat),
{
    if value < 10 {
        push(out, '0');
    }
    let digits: String = write_decimal(value);
    out.append(digits.as_str());
    assert(out@ =~= old(out)@ + two_digits(value as nat));
}

/// The frames of a time past its whole second, at a rate in thousandths of a
/// frame a second, to the nearest. A rate under one frame a second counts as
/// one.
pub open spec fn frames_past(ticks: int, rate: int) -> int {
    let held = if rate < 1000 {
        1000
    } else {
        rate
    };
    (2 * (ticks % (TICKS as int)) * held + 1000 * TICKS) / (2000 * TICKS)
}

pub open spec fn timecode_spec(ticks: int, rate: int) -> Seq<char> {
    let held = if ticks < 0 {
        0
    } else {
        ticks
    };
    let whole = held / (TICKS as int);
    two_digits((whole / 60) as nat) + seq![':'] + two_digits((whole % 60) as nat) + seq!['.']
        + two_digits(frames_past(held, rate) as nat)
}

/// A time as minutes, seconds and frames. A time before the start is the
/// start. The rate is in thousandths of a frame a second.
pub fn timecode(ticks: i64, rate: u32) -> (r: String)
    ensures
        r@ == timecode_spec(ticks as int, rate as int),
{
    let held: i64 = if ticks < 0 {
        0
    } else {
        ticks
    };
    let whole: u64 = (held / TICKS) as u64;
    let rest: i128 = (held % TICKS) as i128;
    let fast: i128 = if rate < 1000 {
        1000
    } else {
        rate as i128
    };
    proof {
        assert(0 <= 2 * rest * fast <= 2 * 705_600_000 * u32::MAX) by (nonlinear_arith)
            requires
                0 <= rest <= 705_600_000,
                0 <= fast <= u32::MAX,
        ;
        assert((2 * rest * fast + 1000 * TICKS) / (2000 * TICKS as int) <= u64::MAX)
            by (nonlinear_arith)
            requires
                0 <= 2 * rest * fast <= 2 * 705_600_000 * u32::MAX,
                TICKS == 705_600_000,
        ;
    }
    let frames: u64 = ((2 * rest * fast + 1000 * (TICKS as i128)) / (2000 * (TICKS as i128))) as u64;
    let mut out: String = String::new();
    write_two_digits(&mut out, whole / 60);
    push(&mut out, ':');
    write_two_digits(&mut out, whole % 60);
    push(&mut out, '.');
    write_two_digits(&mut out, frames);
    assert(out@ =~= timecode_spec(ticks as int, rate as int));
    out
}

/// The spacings of the ruler, in thousandths of a second, and the least
/// number of points a second, as bits, at which each keeps sixty points
/// between its ticks.
pub open spec fn spacings() -> Seq<(u32, u32)> {
    seq![
        (100, 0x4416_0000u32),
        (250, 0x4370_0000u32),
        (500, 0x42f0_0000u32),
        (1_000, 0x4270_0000u32),
        (2_000, 0x41f0_0000u32),
        (5_000, 0x4140_0000u32),
        (10_000, 0x40c0_0000u32),
        (30_000, 0x4000_0000u32),
        (60_000, 0x3f80_0000u32),
    ]
}

/// The first spacing of a list that keeps sixty points between its ticks, or
/// two minutes.
pub open spec fn first_that_fits(list: Seq<(u32, u32)>, points: Single) -> u32
    decreases list.len(),
{
    if list.len() == 0 {
        120_000
    } else if crate::num::single(list[0].1).at_most(points) {
        list[0].0
    } else {
        first_that_fits(list.skip(1), points)
    }
}

/// The spacing of the ruler ticks in thousandths of a second, for a scale in
/// points a second: the least of tenths, quarters and halves of a second, 1,
/// 2, 5, 10 and 30 seconds and a minute that keeps sixty points between two
/// ticks, else two minutes.
pub fn tick_seconds(points_per_second: Single) -> (r: u32)
    ensures
        r == first_that_fits(spacings(), points_per_second),
{
    proof {
        reveal_with_fuel(first_that_fits, 10);
        let list = spacings();
        assert(list.skip(1).skip(1) =~= list.skip(2));
        assert(list.skip(2).skip(1) =~= list.skip(3));
        assert(list.skip(3).skip(1) =~= list.skip(4));
        assert(list.skip(4).skip(1) =~= list.skip(5));
        assert(list.skip(5).skip(1) =~= list.skip(6));
        assert(list.skip(6).skip(1) =~= list.skip(7));
        assert(list.skip(7).skip(1) =~= list.skip(8));
        assert(list.skip(8).skip(1) =~= Seq::empty());
    }
    let p: Single = points_per_second;
    if (Single { bits: 0x4416_0000 }).is_at_most(p) {
        100
    } else if (Single { bits: 0x4370_0000 }).is_at_most(p) {
        250
    } else if (Single { bits: 0x42f0_0000 }).is_at_most(p) {
        500
    } else if (Single { bits: 0x4270_0000 }).is_at_most(p) {
        1_000
    } else if (Single { bits: 0x41f0_0000 }).is_at_most(p) {
        2_000
    } else if (Single { bits: 0x4140_0000 }).is_at_most(p) {
        5_000
    } else if (Single { bits: 0x40c0_0000 }).is_at_most(p) {
        10_000
    } else if (Single { bits: 0x4000_0000 }).is_at_most(p) {
        30_000
    } else if (Single { bits: 0x3f80_0000 }).is_at_most(p) {
        60_000
    } else {
        120_000
    }
}

/// What is done to the project or its player.
#[derive(Clone, Copy, Debug, PartialEq, Eq, Structural)]
pub enum Action {
    Toggle,
    Split,
    Delete,
    Pause,
    SeekStart,
    SeekEnd,
    StepBack,
    StepOn,
}

/// The keys of the tab that were pressed.
#[derive(Clone, Copy, Debug, PartialEq, Eq, Structural)]
pub struct TimelineKeys {
    pub space: bool,
    pub split: bool,
    pub delete: bool,
    pub home: bool,
    pub end: bool,
    pub left: bool,
    pub right: bool,
}

pub open spec fn when(asked: bool, actions: Seq<Action>) -> Seq<Action> {
    if asked {
        actions
    } else {
        Seq::empty()
    }
}

/// What the keys do, in order: Home and End pause before they seek.
pub open spec fn shortcuts_spec(keys: TimelineKeys) -> Seq<Action> {
    when(keys.space, seq![Action::Toggle]) + when(keys.split, seq![Action::Split]) + when(
        keys.delete,
        seq![Action::Delete],
    ) + when(keys.home, seq![Action::Pause, Action::SeekStart]) + when(
        keys.end,
        seq![Action::Pause, Action::SeekEnd],
    ) + when(keys.left, seq![Action::StepBack]) + when(keys.right, seq![Action::StepOn])
}

/// What the keys do, in order.
pub fn shortcuts(keys: TimelineKeys) -> (r: Vec<Action>)
    ensures
        r@ == shortcuts_spec(keys),
{
    let mut out: Vec<Action> = Vec::new();
    if keys.space {
        out.push(Action::Toggle);
    }
    if keys.split {
        out.push(Action::Split);
    }
    if keys.delete {
        out.push(Action::Delete);
    }
    if keys.home {
        out.push(Action::Pause);
        out.push(Action::SeekStart);
    }
    if keys.end {
        out.push(Action::Pause);
        out.push(Action::SeekEnd);
    }
    if keys.left {
        out.push(Action::StepBack);
    }
    if keys.right {
        out.push(Action::StepOn);
    }
    assert(out@ =~= shortcuts_spec(keys));
    out
}

/// What the play button says.
pub fn play_label(playing: bool) -> (r: &'static str)
    ensures
        r@ == if playing {
            "Pause"@
        } else {
            "Play"@
        },
{
    if playing {
        "Pause"
    } else {
        "Play"
    }
}

/// The buttons of the transport that were clicked.
#[derive(Clone, Copy, Debug, PartialEq, Eq, Structural)]
pub struct TransportClicks {
    pub play: bool,
    pub split: bool,
    pub delete: bool,
}

/// What the buttons do.
pub open spec fn transport_spec(clicks: TransportClicks, selected: bool) -> Seq<Action> {
    when(clicks.play, seq![Action::Toggle]) + when(clicks.split, seq![Action::Split]) + when(
        clicks.delete && selected,
        seq![Action::Delete],
    )
}

/// What the buttons do, in order. Delete is there only with a clip selected.
pub fn transport(clicks: TransportClicks, selected: bool) -> (r: Vec<Action>)
    ensures
        r@ == transport_spec(clicks, selected),
        r@ == when(clicks.play, seq![Action::Toggle]) + when(clicks.split, seq![Action::Split])
            + when(clicks.delete && selected, seq![Action::Delete]),
{
    let mut out: Vec<Action> = Vec::new();
    if clicks.play {
        out.push(Action::Toggle);
    }
    if clicks.split {
        out.push(Action::Split);
    }
    if clicks.delete && selected {
        out.push(Action::Delete);
    }
    assert(out@ =~= when(clicks.play, seq![Action::Toggle]) + when(
        clicks.split,
        seq![Action::Split],
    ) + when(clicks.delete && selected, seq![Action::Delete]));
    out
}

/// Where each clip begins and ends on the timeline, in ticks.
pub fn clip_spans(track: &Track) -> (r: Vec<(i64, i64)>)
    requires
        run_length(track.clips@) <= i64::MAX,
    ensures
        r@.len() == track.clips@.len(),
        forall|i: int|
            0 <= i < r@.len() ==> (#[trigger] r@[i]).0 == start(track.clips@, i) && r@[i].1
                == start(track.clips@, i) + track.clips@[i].length(),
{
    let mut out: Vec<(i64, i64)> = Vec::new();
    let mut from: i64 = 0;
    let mut i: usize = 0;
    assert(track.clips@.take(0) =~= Seq::empty());
    while i < track.clips.len()
        invariant
            0 <= i <= track.clips@.len(),
            run_length(track.clips@) <= i64::MAX,
            from == run_length(track.clips@.take(i as int)),
            out@.len() == i,
            forall|j: int|
                0 <= j < i ==> (#[trigger] out@[j]).0 == start(track.clips@, j) && out@[j].1
                    == start(track.clips@, j) + track.clips@[j].length(),
        decreases track.clips.len() - i,
    {
        proof {
            crate::timeline::run_length_of_take(track.clips@, i as int);
        }
        let to: i64 = from + track.clips[i].duration();
        out.push((from, to));
        from = to;
        i += 1;
    }
    out
}

/// The clips lie end to end on the track: each begins where the one before it
/// ends, and the last ends where the track does.
pub proof fn the_clips_lie_end_to_end(clips: Seq<Clip>, index: int)
    requires
        0 <= index < clips.len(),
    ensures
        start(clips, index) + clips[index].length() == start(clips, index + 1),
        start(clips, 0) == 0,
        start(clips, clips.len() as int) == run_length(clips),
{
    crate::timeline::run_length_of_take(clips, index);
    assert(clips.take(0) =~= Seq::empty());
    assert(clips.take(clips.len() as int) =~= clips);
}

/// What the pointer did on the track in a frame.
#[derive(Clone, Copy, Debug, PartialEq, Eq)]
pub struct TrackInput {
    /// The clip whose handle is dragged, and whether it is the handle of its
    /// start.
    pub trim: Option<(usize, bool)>,
    pub clicked: bool,
    pub dragged: bool,
    /// Whether the pointer has a place on the track.
    pub pointer: bool,
    /// The clip that was clicked.
    pub clip: Option<usize>,
}

/// What the pointer on the track means.
#[derive(Clone, Copy, Debug, PartialEq, Eq)]
pub struct TrackOutcome {
    /// The clip whose end is trimmed, and whether it is its start.
    pub trim: Option<(usize, bool)>,
    /// The player is paused and sought to the pointer.
    pub seek: bool,
    pub selected: Option<usize>,
}

impl TrackInput {
    /// What the pointer means.
    pub open spec fn means(self, selected: Option<usize>) -> TrackOutcome {
        TrackOutcome {
            trim: self.trim,
            seek: self.trim is None && (self.dragged || self.clicked) && self.pointer,
            selected: if self.clip is Some {
                self.clip
            } else if self.clicked {
                None
            } else {
                selected
            },
        }
    }
}

/// What the pointer on the track means. A drag of a handle trims and moves
/// nothing else; any other click or drag seeks; a click on a clip selects it
/// and a click beside the clips selects none.
pub fn track_area(input: TrackInput, selected: Option<usize>) -> (r: TrackOutcome)
    ensures
        r == input.means(selected),
        r.trim == input.trim,
        r.seek == (input.trim is None && (input.dragged || input.clicked) && input.pointer),
        r.selected == if input.clip is Some {
            input.clip
        } else if input.clicked {
            None
        } else {
            selected
        },
{
    TrackOutcome {
        trim: input.trim,
        seek: input.trim.is_none() && (input.dragged || input.clicked) && input.pointer,
        selected: if input.clip.is_some() {
            input.clip
        } else if input.clicked {
            None
        } else {
            selected
        },
    }
}

/// The clip the playhead is over, for the selection after a split.
pub fn clip_under(track: &Track, ticks: i64) -> (r: Option<usize>)
    requires
        run_length(track.clips@) <= i64::MAX,
    ensures
        r is Some <==> track.clips@.len() > 0 && 0 <= ticks <= run_length(track.clips@),
        r matches Some(index) ==> index < track.clips@.len() && under(
            track.clips@,
            ticks as int,
            index as int,
            ticks - start(track.clips@, index as int),
        ),
{
    match track.clip_at(ticks) {
        Some((index, _)) => Some(index),
        None => None,
    }
}

/// A whole time reads as its minutes, its seconds and its frames: at a rate
/// at which the frames past the second are a whole number, the code is that
/// of the time. A time before the start reads as the start.
pub proof fn a_timecode_reads_as_the_time(
    minutes: nat,
    seconds: nat,
    frames: nat,
    past: int,
    rate: int,
    before: int,
)
    requires
        seconds < 60,
        rate >= 1000,
        0 <= past < TICKS,
        past * rate == frames * (1000 * TICKS),
        before <= 0,
    ensures
        timecode_spec((60 * minutes + seconds) * TICKS + past, rate) == two_digits(minutes)
            + seq![':'] + two_digits(seconds) + seq!['.'] + two_digits(frames),
        timecode_spec(before, rate) == two_digits(0) + seq![':'] + two_digits(0) + seq!['.']
            + two_digits(0),
{
    let whole = (60 * minutes + seconds) as int;
    let ticks = whole * TICKS + past;
    let second = TICKS as int;
    assert(whole * TICKS >= 0) by (nonlinear_arith)
        requires
            whole >= 0,
            TICKS > 0,
    ;
    assert(whole * second == whole * TICKS);
    vstd::arithmetic::div_mod::lemma_fundamental_div_mod_converse(ticks, second, whole, past);
    assert(ticks / second == whole && ticks % second == past);
    vstd::arithmetic::div_mod::lemma_fundamental_div_mod_converse(
        whole,
        60,
        minutes as int,
        seconds as int,
    );
    assert(frames_past(ticks, rate) == frames) by {
        let top = 2 * past * rate + 1000 * TICKS;
        assert(2 * past * rate == 2 * (past * rate)) by (nonlinear_arith);
        assert(2 * (frames * (1000 * TICKS)) == frames * (2000 * TICKS)) by (nonlinear_arith);
        vstd::arithmetic::div_mod::lemma_fundamental_div_mod_converse(
            top,
            2000 * TICKS as int,
            frames as int,
            1000 * TICKS as int,
        );
    }
    assert(frames_past(0, rate) == 0) by {
        assert(2 * 0 * rate == 0) by (nonlinear_arith);
    }
}

/// The frames of a timecode are the nearest to the time past the second: half
/// a frame off at most.
pub proof fn the_frames_of_a_timecode_are_the_nearest(ticks: int, rate: int)
    requires
        rate >= 1000,
    ensures
        ({
            let (shown, past) = (frames_past(ticks, rate), ticks % (TICKS as int));
            &&& 2 * (shown * (1000 * TICKS) - past * rate) <= 1000 * TICKS
            &&& 2 * (past * rate - shown * (1000 * TICKS)) <= 1000 * TICKS
        }),
{
    let past = ticks % (TICKS as int);
    let top = 2 * past * rate + 1000 * TICKS;
    let shown = frames_past(ticks, rate);
    vstd::arithmetic::div_mod::lemma_fundamental_div_mod(top, 2000 * TICKS as int);
    assert(2 * past * rate == 2 * (past * rate)) by (nonlinear_arith);
    assert((2000 * TICKS) * shown == 2 * (shown * (1000 * TICKS))) by (nonlinear_arith);
}

/// A number in two digits has two of them up to 99, and more only when it
/// needs them.
pub proof fn two_digits_are_two(value: nat)
    ensures
        value < 100 ==> two_digits(value).len() == 2,
        value < 100 ==> two_digits(value)[0] as int - 48 == value / 10,
        value < 100 ==> two_digits(value)[1] as int - 48 == value % 10,
        value >= 100 ==> two_digits(value) == decimal(value),
{
    reveal_with_fuel(decimal, 3);
}

/// Each spacing of the ruler comes with the scale at which it keeps sixty
/// points between two ticks: the points of its length are then just sixty.
pub proof fn each_spacing_keeps_sixty_points(i: int)
    requires
        0 <= i < 9,
    ensures
        spacings().len() == 9,
        crate::num::whole_worth(spacings()[i].1) * spacings()[i].0 == 60_000,
        i > 0 ==> spacings()[i - 1].0 < spacings()[i].0,
        i > 0 ==> spacings()[i - 1].1 > spacings()[i].1,
        spacings()[i].0 < 120_000,
{
    vstd::arithmetic::power2::lemma2_to64();
    let s = spacings();
    assert(s[0].1 == 0x4416_0000 && s[1].1 == 0x4370_0000 && s[2].1 == 0x42f0_0000);
    assert(s[3].1 == 0x4270_0000 && s[4].1 == 0x41f0_0000 && s[5].1 == 0x4140_0000);
    assert(s[6].1 == 0x40c0_0000 && s[7].1 == 0x4000_0000 && s[8].1 == 0x3f80_0000);
    crate::num::bits_are_worth(0x4416_0000, 9, 512, 600);
    crate::num::bits_are_worth(0x4370_0000, 7, 128, 240);
    crate::num::bits_are_worth(0x42f0_0000, 6, 64, 120);
    crate::num::bits_are_worth(0x4270_0000, 5, 32, 60);
    crate::num::bits_are_worth(0x41f0_0000, 4, 16, 30);
    crate::num::bits_are_worth(0x4140_0000, 3, 8, 12);
    crate::num::bits_are_worth(0x40c0_0000, 2, 4, 6);
    crate::num::bits_are_worth(0x4000_0000, 1, 2, 2);
    crate::num::bits_are_worth(0x3f80_0000, 0, 1, 1);
}

proof fn the_first_that_fits(list: Seq<(u32, u32)>, points: Single)
    ensures
        ({
            let spacing = first_that_fits(list, points);
            ||| spacing == 120_000 && forall|i: int|
                0 <= i < list.len() ==> !crate::num::single((#[trigger] list[i]).1).at_most(points)
            ||| exists|k: int|
                {
                    &&& 0 <= k < list.len() && (#[trigger] list[k]).0 == spacing
                    &&& crate::num::single(list[k].1).at_most(points)
                    &&& forall|i: int|
                        0 <= i < k ==> !crate::num::single((#[trigger] list[i]).1).at_most(points)
                }
        }),
    decreases list.len(),
{
    if list.len() > 0 {
        if crate::num::single(list[0].1).at_most(points) {
        } else {
            let rest = list.skip(1);
            the_first_that_fits(rest, points);
            let spacing = first_that_fits(rest, points);
            if exists|k: int|
                {
                    &&& 0 <= k < rest.len() && (#[trigger] rest[k]).0 == spacing
                    &&& crate::num::single(rest[k].1).at_most(points)
                    &&& forall|i: int|
                        0 <= i < k ==> !crate::num::single((#[trigger] rest[i]).1).at_most(points)
                } {
                let k = choose|k: int|
                    {
                        &&& 0 <= k < rest.len() && (#[trigger] rest[k]).0 == spacing
                        &&& crate::num::single(rest[k].1).at_most(points)
                        &&& forall|i: int|
                            0 <= i < k ==> !crate::num::single((#[trigger] rest[i]).1).at_most(
                                points,
                            )
                    };
                assert(list[k + 1] == rest[k]);
                assert forall|i: int| 0 <= i < k + 1 implies !crate::num::single(
                    (#[trigger] list[i]).1,
                ).at_most(points) by {
                    if i > 0 {
                        assert(rest[i - 1] == list[i]);
                    }
                }
            } else {
                assert forall|i: int| 0 <= i < list.len() implies !crate::num::single(
                    (#[trigger] list[i]).1,
                ).at_most(points) by {
                    if i > 0 {
                        assert(rest[i - 1] == list[i]);
                    }
                }
            }
        }
    }
}

/// The ruler is as fine as it can be: its spacing keeps sixty points between
/// two ticks, no finer spacing does, and two minutes are for where none does.
pub proof fn the_ruler_is_as_fine_as_it_can_be(points: Single, i: int)
    requires
        0 <= i < 9,
    ensures
        spacings()[i].0 < first_that_fits(spacings(), points) ==> !crate::num::single(
            spacings()[i].1,
        ).at_most(points),
        spacings()[i].0 == first_that_fits(spacings(), points) ==> crate::num::single(
            spacings()[i].1,
        ).at_most(points),
        first_that_fits(spacings(), points) == 120_000 || exists|k: int|
            0 <= k < 9 && (#[trigger] spacings()[k]).0 == first_that_fits(spacings(), points),
{
    the_first_that_fits(spacings(), points);
    let s = spacings();
    assert(s.len() == 9);
    assert(s[0].0 == 100 && s[1].0 == 250 && s[2].0 == 500 && s[3].0 == 1_000);
    assert(s[4].0 == 2_000 && s[5].0 == 5_000 && s[6].0 == 10_000 && s[7].0 == 30_000);
    assert(s[8].0 == 60_000);
}

/// Each key does its one thing, and a key that is not down does nothing: Home
/// and End pause before they seek.
pub proof fn each_key_does_its_thing(keys: TimelineKeys)
    ensures
        ({
            let none = TimelineKeys {
                space: false,
                split: false,
                delete: false,
                home: false,
                end: false,
                left: false,
                right: false,
            };
            &&& shortcuts_spec(none) == Seq::<Action>::empty()
            &&& shortcuts_spec((TimelineKeys { space: true, ..none })) == seq![Action::Toggle]
            &&& shortcuts_spec((TimelineKeys { split: true, ..none })) == seq![Action::Split]
            &&& shortcuts_spec((TimelineKeys { delete: true, ..none })) == seq![Action::Delete]
            &&& shortcuts_spec((TimelineKeys { home: true, ..none })) == seq![
                Action::Pause,
                Action::SeekStart,
            ]
            &&& shortcuts_spec((TimelineKeys { end: true, ..none })) == seq![
                Action::Pause,
                Action::SeekEnd,
            ]
            &&& shortcuts_spec((TimelineKeys { left: true, ..none })) == seq![Action::StepBack]
            &&& shortcuts_spec((TimelineKeys { right: true, ..none })) == seq![Action::StepOn]
        }),
        ({
            let (first, rest) = (
                TimelineKeys {
                    home: false,
                    end: false,
                    left: false,
                    right: false,
                    ..keys
                },
                TimelineKeys { space: false, split: false, delete: false, ..keys },
            );
            shortcuts_spec(keys) == shortcuts_spec(first) + shortcuts_spec(rest)
        }),
{
    let none = TimelineKeys {
        space: false,
        split: false,
        delete: false,
        home: false,
        end: false,
        left: false,
        right: false,
    };
    assert(shortcuts_spec(none) =~= Seq::<Action>::empty());
    assert(shortcuts_spec((TimelineKeys { space: true, ..none })) =~= seq![Action::Toggle]);
    assert(shortcuts_spec((TimelineKeys { split: true, ..none })) =~= seq![Action::Split]);
    assert(shortcuts_spec((TimelineKeys { delete: true, ..none })) =~= seq![Action::Delete]);
    assert(shortcuts_spec((TimelineKeys { home: true, ..none })) =~= seq![
        Action::Pause,
        Action::SeekStart,
    ]);
    assert(shortcuts_spec((TimelineKeys { end: true, ..none })) =~= seq![
        Action::Pause,
        Action::SeekEnd,
    ]);
    assert(shortcuts_spec((TimelineKeys { left: true, ..none })) =~= seq![Action::StepBack]);
    assert(shortcuts_spec((TimelineKeys { right: true, ..none })) =~= seq![Action::StepOn]);
    let first = TimelineKeys { home: false, end: false, left: false, right: false, ..keys };
    let rest = TimelineKeys { space: false, split: false, delete: false, ..keys };
    assert(shortcuts_spec(keys) =~= shortcuts_spec(first) + shortcuts_spec(rest));
}

/// Each button does its one thing, and Delete does nothing without a clip
/// selected.
pub proof fn each_button_does_its_thing(selected: bool)
    ensures
        ({
            let none = TransportClicks { play: false, split: false, delete: false };
            &&& transport_spec(none, selected) == Seq::<Action>::empty()
            &&& transport_spec((TransportClicks { play: true, ..none }), selected) == seq![
                Action::Toggle,
            ]
            &&& transport_spec((TransportClicks { split: true, ..none }), selected) == seq![
                Action::Split,
            ]
            &&& transport_spec((TransportClicks { delete: true, ..none }), true) == seq![
                Action::Delete,
            ]
            &&& transport_spec((TransportClicks { delete: true, ..none }), false) == Seq::<
                Action,
            >::empty()
        }),
{
    let none = TransportClicks { play: false, split: false, delete: false };
    assert(transport_spec(none, selected) =~= Seq::<Action>::empty());
    assert(transport_spec((TransportClicks { play: true, ..none }), selected) =~= seq![
        Action::Toggle,
    ]);
    assert(transport_spec((TransportClicks { split: true, ..none }), selected) =~= seq![
        Action::Split,
    ]);
    assert(transport_spec((TransportClicks { delete: true, ..none }), true) =~= seq![
        Action::Delete,
    ]);
    assert(transport_spec((TransportClicks { delete: true, ..none }), false) =~= Seq::<
        Action,
    >::empty());
}

/// A handle that is dragged trims its clip and does not seek; a click or a
/// drag anywhere else seeks to the pointer; and the selection goes to the clip
/// that was clicked, to none for a click beside the clips, and stays else.
pub proof fn the_pointer_trims_or_seeks(input: TrackInput, selected: Option<usize>)
    ensures
        input.means(selected).trim == input.trim,
        input.trim is Some ==> !input.means(selected).seek,
        input.trim is None && input.pointer && (input.dragged || input.clicked) ==> input.means(
            selected,
        ).seek,
        !input.dragged && !input.clicked ==> !input.means(selected).seek,
        !input.pointer ==> !input.means(selected).seek,
        input.clip is Some ==> input.means(selected).selected == input.clip,
        input.clip is None && input.clicked ==> input.means(selected).selected is None,
        input.clip is None && !input.clicked ==> input.means(selected).selected == selected,
{
}

/// A rate under one frame a second counts as one.
pub proof fn a_slow_rate_counts_as_one_frame(ticks: int, rate: int)
    requires
        rate <= 1000,
    ensures
        frames_past(ticks, rate) == frames_past(ticks, 1000),
{
}

} // verus!
