//! One video track: clips end to end, each a span of one media file. A
//! clip's place on the timeline is the sum of the clips before it, so
//! trimming, splitting and deleting are list operations on pure data.
//!
//! Time is counted in ticks, of which a second has 705,600,000: a frame of
//! any common rate and a sample of any common sound are whole numbers of
//! them.

use vstd::prelude::*;

verus! {

/// The ticks of a second.
pub const TICKS: i64 = 705_600_000;

/// The smallest span a clip can be trimmed to: one frame at the highest rate
/// the player plays, a sixtieth of a second.
pub const MIN_CLIP: i64 = 11_760_000;

/// A span of one media file on the track.
#[derive(Clone, Copy, Debug, PartialEq, Eq, Structural)]
pub struct Clip {
    /// Index into the project's media list.
    pub media: usize,
    /// Where the span starts in the media, in ticks.
    pub source_in: i64,
    /// Where the span ends in the media, in ticks, exclusive.
    pub source_out: i64,
}

impl Default for Clip {
    fn default() -> (r: Self)
        ensures
            r == (Clip { media: 0, source_in: 0, source_out: 0 }),
    {
        Clip { media: 0, source_in: 0, source_out: 0 }
    }
}

impl Clip {
    /// The length of the span in ticks: none when it ends before it starts.
    pub open spec fn length(self) -> int {
        if self.source_out > self.source_in {
            self.source_out - self.source_in
        } else {
            0
        }
    }

    /// The whole of a media file of `duration` ticks.
    pub fn whole(media: usize, duration: i64) -> (r: Clip)
        ensures
            r.media == media,
            r.source_in == 0,
            r.source_out == if duration > 0 {
                duration
            } else {
                0
            },
    {
        Clip {
            media,
            source_in: 0,
            source_out: if duration > 0 {
                duration
            } else {
                0
            },
        }
    }

    /// The length of the span in ticks.
    pub fn duration(&self) -> (r: i64)
        requires
            self.length() <= i64::MAX,
        ensures
            r == self.length(),
    {
        if self.source_out > self.source_in {
            ((self.source_out as i128) - (self.source_in as i128)) as i64
        } else {
            0
        }
    }
}

/// The length of a run of clips.
pub open spec fn run_length(clips: Seq<Clip>) -> int
    decreases clips.len(),
{
    if clips.len() == 0 {
        0
    } else {
        run_length(clips.drop_last()) + clips.last().length()
    }
}

/// Where the clip at `index` starts on the timeline.
pub open spec fn start(clips: Seq<Clip>, index: int) -> int {
    if index < clips.len() {
        run_length(clips.take(index))
    } else {
        run_length(clips)
    }
}

/// The one video track.
#[derive(Debug)]
pub struct Track {
    pub clips: Vec<Clip>,
}

impl Default for Track {
    fn default() -> (r: Self)
        ensures
            r.clips@.len() == 0,
    {
        Track { clips: Vec::new() }
    }
}

impl PartialEq for Track {
    fn eq(&self, other: &Self) -> (r: bool) {
        if self.clips.len() != other.clips.len() {
            return false;
        }
        let mut i: usize = 0;
        while i < self.clips.len()
            invariant
                0 <= i <= self.clips@.len() == other.clips@.len(),
                forall|k: int| 0 <= k < i ==> self.clips@[k] == other.clips@[k],
            decreases self.clips.len() - i,
        {
            if self.clips[i] != other.clips[i] {
                return false;
            }
            i += 1;
        }
        assert(self.clips@ =~= other.clips@);
        true
    }
}

impl vstd::std_specs::cmp::PartialEqSpecImpl for Track {
    open spec fn obeys_eq_spec() -> bool {
        true
    }

    open spec fn eq_spec(&self, other: &Self) -> bool {
        self.clips@ == other.clips@
    }
}

impl Clone for Track {
    fn clone(&self) -> (r: Self)
        ensures
            r.clips@ == self.clips@,
    {
        let clips: Vec<Clip> = self.clips.clone();
        assert(clips@ =~= self.clips@);
        Track { clips }
    }
}

pub proof fn run_length_of_take(clips: Seq<Clip>, count: int)
    requires
        0 <= count <= clips.len(),
    ensures
        0 <= run_length(clips.take(count)) <= run_length(clips),
        count < clips.len() ==> run_length(clips.take(count + 1)) == run_length(clips.take(count))
            + clips[count].length(),
        count < clips.len() ==> run_length(clips.take(count + 1)) <= run_length(clips),
    decreases clips.len() - count,
{
    if count < clips.len() {
        assert(clips.take(count + 1).drop_last() =~= clips.take(count));
        run_length_of_take(clips, count + 1);
        run_length_is_not_negative(clips.take(count));
    } else {
        assert(clips.take(count) =~= clips);
        run_length_is_not_negative(clips);
    }
}

pub proof fn run_length_is_not_negative(clips: Seq<Clip>)
    ensures
        0 <= run_length(clips),
    decreases clips.len(),
{
    if clips.len() > 0 {
        run_length_is_not_negative(clips.drop_last());
    }
}

proof fn run_length_of_two_runs(a: Seq<Clip>, b: Seq<Clip>)
    ensures
        run_length(a + b) == run_length(a) + run_length(b),
    decreases b.len(),
{
    if b.len() == 0 {
        assert(a + b =~= a);
    } else {
        run_length_of_two_runs(a, b.drop_last());
        assert((a + b).drop_last() =~= a + b.drop_last());
    }
}

proof fn run_length_of_one(clip: Clip)
    ensures
        run_length(seq![clip]) == clip.length(),
{
    let one = seq![clip];
    assert(one.drop_last() =~= Seq::empty());
    assert(run_length(one.drop_last()) == 0);
    assert(one.last() == clip);
}

/// The clip under a place on the timeline and the offset into it. At a
/// boundary the later clip wins; the very end belongs to the last clip so the
/// playhead can rest there.
pub open spec fn under(clips: Seq<Clip>, ticks: int, index: int, offset: int) -> bool {
    &&& 0 <= index < clips.len()
    &&& start(clips, index) + offset == ticks
    &&& if ticks < run_length(clips) {
        0 <= offset < clips[index].length()
    } else {
        ticks == run_length(clips) && index == clips.len() - 1 && offset == clips[index].length()
    }
}

impl Track {
    /// A track holding one clip.
    pub fn one(clip: Clip) -> (r: Track)
        ensures
            r.clips@ == seq![clip],
    {
        let mut clips: Vec<Clip> = Vec::new();
        clips.push(clip);
        assert(clips@ =~= seq![clip]);
        Track { clips }
    }

    /// Whether the length of the track can be written in ticks: what every
    /// question about a time on the track asks for first.
    pub fn is_measurable(&self) -> (r: bool)
        ensures
            r == (run_length(self.clips@) <= i64::MAX),
    {
        let mut total: i128 = 0;
        let mut i: usize = 0;
        assert(self.clips@.take(0) =~= Seq::<Clip>::empty());
        while i < self.clips.len()
            invariant
                0 <= i <= self.clips@.len(),
                total == run_length(self.clips@.take(i as int)),
                0 <= total <= i64::MAX,
            decreases self.clips.len() - i,
        {
            let clip: Clip = self.clips[i];
            proof {
                run_length_of_take(self.clips@, i as int);
            }
            if clip.source_out > clip.source_in {
                total = total + (clip.source_out as i128 - clip.source_in as i128);
            }
            if total > i64::MAX as i128 {
                return false;
            }
            i += 1;
        }
        assert(self.clips@.take(i as int) =~= self.clips@);
        true
    }

    /// The length of the track in ticks.
    pub fn duration(&self) -> (r: i64)
        requires
            run_length(self.clips@) <= i64::MAX,
        ensures
            r == run_length(self.clips@),
    {
        self.start_of(self.clips.len())
    }

    /// Where the clip at `index` starts on the timeline, in ticks.
    pub fn start_of(&self, index: usize) -> (r: i64)
        requires
            run_length(self.clips@) <= i64::MAX,
        ensures
            r == start(self.clips@, index as int),
    {
        let mut sum: i64 = 0;
        let mut i: usize = 0;
        assert(self.clips@.take(0) =~= Seq::empty());
        while i < index && i < self.clips.len()
            invariant
                0 <= i <= self.clips@.len(),
                i <= index,
                run_length(self.clips@) <= i64::MAX,
                sum == run_length(self.clips@.take(i as int)),
            decreases self.clips.len() - i,
        {
            proof {
                run_length_of_take(self.clips@, i as int);
            }
            sum = sum + self.clips[i].duration();
            i += 1;
        }
        assert(self.clips@.take(self.clips@.len() as int) =~= self.clips@);
        sum
    }

    /// The clip under `ticks` and the offset into it, or `None` past the
    /// end. At a boundary the later clip wins; the very end belongs to the
    /// last clip so the playhead can rest there.
    pub fn clip_at(&self, ticks: i64) -> (r: Option<(usize, i64)>)
        requires
            run_length(self.clips@) <= i64::MAX,
        ensures
            r is Some <==> self.clips@.len() > 0 && 0 <= ticks <= run_length(self.clips@),
            r matches Some((index, offset)) ==> under(
                self.clips@,
                ticks as int,
                index as int,
                offset as int,
            ),
    {
        if self.clips.len() == 0 || ticks < 0 {
            return None;
        }
        let mut at: i64 = 0;
        let mut i: usize = 0;
        assert(self.clips@.take(0) =~= Seq::empty());
        while i < self.clips.len()
            invariant
                0 <= i <= self.clips@.len(),
                run_length(self.clips@) <= i64::MAX,
                at == run_length(self.clips@.take(i as int)),
                0 <= at <= ticks,
                self.clips@.len() > 0,
            decreases self.clips.len() - i,
        {
            proof {
                run_length_of_take(self.clips@, i as int);
            }
            let end: i64 = at + self.clips[i].duration();
            if ticks < end {
                return Some((i, ticks - at));
            }
            at = end;
            i += 1;
        }
        assert(self.clips@.take(self.clips@.len() as int) =~= self.clips@);
        let last: usize = self.clips.len() - 1;
        if ticks <= at {
            proof {
                run_length_of_take(self.clips@, last as int);
            }
            Some((last, self.clips[last].duration()))
        } else {
            None
        }
    }

    /// Splits the clip under `ticks` into two at that point. Nothing happens
    /// at a boundary or within one frame of one, or past the end. Returns the
    /// index of the second half.
    pub fn split_at(&mut self, ticks: i64) -> (r: Option<usize>)
        requires
            run_length(old(self).clips@) <= i64::MAX,
            old(self).clips@.len() < usize::MAX,
        ensures
            r is Some <==> splits(old(self).clips@, ticks as int),
            r is None ==> final(self).clips@ == old(self).clips@,
            r matches Some(second) ==> {
                let index = second - 1;
                let clip = old(self).clips@[index];
                let at = clip.source_in + (ticks - start(old(self).clips@, index));
                &&& under(
                    old(self).clips@,
                    ticks as int,
                    index,
                    ticks - start(old(self).clips@, index),
                )
                &&& final(self).clips@ == cut(old(self).clips@, index, at as i64)
                &&& clip.source_in + MIN_CLIP <= at <= clip.source_out - MIN_CLIP
                &&& start(final(self).clips@, second as int) == ticks
                &&& run_length(final(self).clips@) == run_length(old(self).clips@)
            },
    {
        let (index, offset): (usize, i64) = match self.clip_at(ticks) {
            Some(found) => found,
            None => {
                proof {
                    if splits(old(self).clips@, ticks as int) {
                        let (i, o) = choose|i: int, o: int|
                            #[trigger] under(old(self).clips@, ticks as int, i, o) && MIN_CLIP <= o
                                <= old(self).clips@[i].length() - MIN_CLIP;
                        run_length_of_take(old(self).clips@, i);
                    }
                }
                return None;
            },
        };
        let clip: Clip = self.clips[index];
        proof {
            run_length_of_take(self.clips@, index as int);
        }
        if offset < MIN_CLIP || clip.duration() - offset < MIN_CLIP {
            proof {
                if splits(old(self).clips@, ticks as int) {
                    let (i, o) = choose|i: int, o: int|
                        #[trigger] under(old(self).clips@, ticks as int, i, o) && MIN_CLIP <= o
                            <= old(self).clips@[i].length() - MIN_CLIP;
                    under_is_one_place(old(self).clips@, ticks as int, index as int, offset as int, i, o);
                }
            }
            return None;
        }
        let at: i64 = clip.source_in + offset;
        self.clips.set(index, Clip { media: clip.media, source_in: clip.source_in, source_out: at });
        self.clips.insert(
            index + 1,
            Clip { media: clip.media, source_in: at, source_out: clip.source_out },
        );
        assert(self.clips@ =~= cut(old(self).clips@, index as int, at));
        proof {
            a_split_keeps_the_length(old(self).clips@, index as int, at);
        }
        Some(index + 1)
    }

    /// Removes the clip at `index`; the clips after it move up to close the
    /// gap. Returns the removed clip.
    pub fn ripple_delete(&mut self, index: usize) -> (r: Option<Clip>)
        ensures
            index < old(self).clips@.len() ==> r == Some(old(self).clips@[index as int])
                && final(self).clips@ == old(self).clips@.remove(index as int),
            index >= old(self).clips@.len() ==> r is None && final(self).clips@
                == old(self).clips@,
            index < old(self).clips@.len() ==> run_length(final(self).clips@) == run_length(
                old(self).clips@,
            ) - old(self).clips@[index as int].length(),
    {
        if index < self.clips.len() {
            proof {
                if self.clips@.len() > 1 {
                    a_ripple_delete_closes_the_gap(self.clips@, index as int, 0);
                } else {
                    assert(self.clips@.remove(index as int) =~= Seq::empty());
                    assert(self.clips@ =~= seq![self.clips@[0]]);
                    run_length_of_one(self.clips@[0]);
                }
            }
            Some(self.clips.remove(index))
        } else {
            None
        }
    }

    /// Moves the in point of the clip at `index` to `ticks` in the media,
    /// kept at least one frame before the out point and never below zero.
    pub fn trim_in(&mut self, index: usize, ticks: i64)
        ensures
            index >= old(self).clips@.len() ==> final(self).clips@ == old(self).clips@,
            index < old(self).clips@.len() ==> final(self).clips@ == old(self).clips@.update(
                index as int,
                trimmed_in(old(self).clips@[index as int], ticks),
            ),
    {
        if index < self.clips.len() {
            let mut clip: Clip = self.clips[index];
            let latest: i64 = if clip.source_out > MIN_CLIP {
                clip.source_out - MIN_CLIP
            } else {
                0
            };
            clip.source_in = if ticks < 0 {
                0
            } else if ticks > latest {
                latest
            } else {
                ticks
            };
            self.clips.set(index, clip);
        }
    }

    /// Moves the out point of the clip at `index` to `ticks` in the media,
    /// kept at least one frame after the in point and never past
    /// `media_duration`.
    pub fn trim_out(&mut self, index: usize, ticks: i64, media_duration: i64)
        requires
            index < old(self).clips@.len() ==> old(self).clips@[index as int].source_in <= i64::MAX
                - MIN_CLIP,
        ensures
            index >= old(self).clips@.len() ==> final(self).clips@ == old(self).clips@,
            index < old(self).clips@.len() ==> final(self).clips@ == old(self).clips@.update(
                index as int,
                trimmed_out(old(self).clips@[index as int], ticks, media_duration),
            ),
    {
        if index < self.clips.len() {
            let mut clip: Clip = self.clips[index];
            let floor: i64 = clip.source_in + MIN_CLIP;
            let ceiling: i64 = if media_duration > floor {
                media_duration
            } else {
                floor
            };
            clip.source_out = if ticks < floor {
                floor
            } else if ticks > ceiling {
                ceiling
            } else {
                ticks
            };
            self.clips.set(index, clip);
        }
    }
}

/// Whether a split at a place makes two clips: at least one frame lies on
/// each side of it in the clip under it.
pub open spec fn splits(clips: Seq<Clip>, ticks: int) -> bool {
    exists|index: int, offset: int| #[trigger]
        under(clips, ticks, index, offset) && MIN_CLIP <= offset <= clips[index].length() - MIN_CLIP
}

/// The clips with the one at `index` cut in two at `at` in its media.
pub open spec fn cut(clips: Seq<Clip>, index: int, at: i64) -> Seq<Clip> {
    let clip = clips[index];
    clips.update(
        index,
        Clip { media: clip.media, source_in: clip.source_in, source_out: at },
    ).insert(index + 1, Clip { media: clip.media, source_in: at, source_out: clip.source_out })
}

/// The clip with its in point moved.
pub open spec fn trimmed_in(clip: Clip, ticks: i64) -> Clip {
    let latest = if clip.source_out > MIN_CLIP {
        clip.source_out - MIN_CLIP
    } else {
        0
    };
    let source_in = if ticks < 0 {
        0
    } else if ticks > latest {
        latest
    } else {
        ticks as int
    };
    Clip { source_in: source_in as i64, ..clip }
}

/// The clip with its out point moved.
pub open spec fn trimmed_out(clip: Clip, ticks: i64, media_duration: i64) -> Clip {
    let floor = clip.source_in + MIN_CLIP;
    let ceiling = if media_duration > floor {
        media_duration as int
    } else {
        floor
    };
    let source_out = if ticks < floor {
        floor
    } else if ticks > ceiling {
        ceiling
    } else {
        ticks as int
    };
    Clip { source_out: source_out as i64, ..clip }
}

/// There is one clip under a place.
pub proof fn under_is_one_place(
    clips: Seq<Clip>,
    ticks: int,
    index: int,
    offset: int,
    other: int,
    other_offset: int,
)
    requires
        under(clips, ticks, index, offset),
        under(clips, ticks, other, other_offset),
    ensures
        index == other,
        offset == other_offset,
{
    if ticks < run_length(clips) {
        if index < other {
            starts_rise(clips, index, other);
        } else if other < index {
            starts_rise(clips, other, index);
        }
    }
}

proof fn starts_rise(clips: Seq<Clip>, index: int, later: int)
    requires
        0 <= index < later < clips.len(),
    ensures
        start(clips, index) + clips[index].length() <= start(clips, later),
    decreases later - index,
{
    run_length_of_take(clips, index);
    if index + 1 < later {
        starts_rise(clips, index, later - 1);
        run_length_of_take(clips, later - 1);
    }
}

/// A split changes nothing that plays: the two halves meet, are as long
/// together as the clip was, and the place of the split is the start of the
/// second.
pub proof fn a_split_keeps_the_length(clips: Seq<Clip>, index: int, at: i64)
    requires
        0 <= index < clips.len(),
        clips[index].source_in <= at <= clips[index].source_out,
    ensures
        run_length(cut(clips, index, at)) == run_length(clips),
        cut(clips, index, at)[index].source_out == cut(clips, index, at)[index + 1].source_in,
        start(cut(clips, index, at), index + 1) == start(clips, index) + (at
            - clips[index].source_in),
{
    let clip = clips[index];
    let first = Clip { source_out: at, ..clip };
    let second = Clip { source_in: at, ..clip };
    let (before, after) = (clips.take(index), clips.skip(index + 1));
    let now = cut(clips, index, at);
    run_length_of_one(clip);
    run_length_of_one(first);
    run_length_of_one(second);
    assert(clips =~= before + seq![clip] + after);
    assert(now =~= before + seq![first] + seq![second] + after);
    run_length_of_two_runs(before + seq![clip], after);
    run_length_of_two_runs(before, seq![clip]);
    run_length_of_two_runs(before + seq![first] + seq![second], after);
    run_length_of_two_runs(before + seq![first], seq![second]);
    run_length_of_two_runs(before, seq![first]);
    assert(now.take(index + 1) =~= before + seq![first]);
}

/// A ripple delete closes the gap: the track is shorter by the clip, the
/// clips before it stay, and each clip after it starts earlier by its length.
pub proof fn a_ripple_delete_closes_the_gap(clips: Seq<Clip>, index: int, other: int)
    requires
        0 <= index < clips.len(),
        0 <= other < clips.len() - 1,
    ensures
        run_length(clips.remove(index)) == run_length(clips) - clips[index].length(),
        other < index ==> start(clips.remove(index), other) == start(clips, other),
        other >= index ==> start(clips.remove(index), other) == start(clips, other + 1)
            - clips[index].length(),
{
    let clip = clips[index];
    let (before, after) = (clips.take(index), clips.skip(index + 1));
    run_length_of_one(clip);
    assert(clips =~= before + seq![clip] + after);
    assert(clips.remove(index) =~= before + after);
    run_length_of_two_runs(before + seq![clip], after);
    run_length_of_two_runs(before, seq![clip]);
    run_length_of_two_runs(before, after);
    if other < index {
        assert(clips.remove(index).take(other) =~= clips.take(other));
    } else {
        let between = after.take(other - index);
        assert(clips.remove(index).take(other) =~= before + between);
        assert(clips.take(other + 1) =~= before + seq![clip] + between);
        run_length_of_two_runs(before, between);
        run_length_of_two_runs(before + seq![clip], between);
    }
}

/// A trim leaves at least one frame of the clip, inside its media.
pub proof fn a_trim_leaves_a_frame(clip: Clip, ticks: i64, media_duration: i64)
    requires
        0 <= clip.source_in,
        clip.source_in <= i64::MAX - MIN_CLIP,
        clip.source_out >= MIN_CLIP,
    ensures
        trimmed_in(clip, ticks).length() >= MIN_CLIP,
        0 <= trimmed_in(clip, ticks).source_in,
        trimmed_out(clip, ticks, media_duration).length() >= MIN_CLIP,
        clip.source_in + MIN_CLIP <= media_duration ==> trimmed_out(
            clip,
            ticks,
            media_duration,
        ).source_out <= media_duration,
{
}

/// A trim of the out point lands where it was asked to: at every time from
/// one frame after the in point to the end of the media. The media and the in
/// point stay, so the clip then plays from its in point to that time.
pub proof fn an_out_point_lands_where_it_was_asked(clip: Clip, ticks: i64, media_duration: i64)
    requires
        clip.source_in <= i64::MAX - MIN_CLIP,
    ensures
        clip.source_in + MIN_CLIP <= ticks <= media_duration ==> trimmed_out(
            clip,
            ticks,
            media_duration,
        ) == (Clip { media: clip.media, source_in: clip.source_in, source_out: ticks }),
        clip.source_in + MIN_CLIP <= ticks <= media_duration ==> trimmed_out(
            clip,
            ticks,
            media_duration,
        ).length() == ticks - clip.source_in,
        trimmed_out(clip, ticks, media_duration).media == clip.media,
        trimmed_out(clip, ticks, media_duration).source_in == clip.source_in,
{
}

/// A trim of the out point that asks for too much stops at the end of the
/// media, and one that asks for too little leaves one frame; a clip with less
/// than a frame of media left keeps one frame whatever is asked.
pub proof fn an_out_point_stops_at_the_nearest_end(clip: Clip, ticks: i64, media_duration: i64)
    requires
        clip.source_in <= i64::MAX - MIN_CLIP,
    ensures
        ticks <= clip.source_in + MIN_CLIP ==> trimmed_out(clip, ticks, media_duration).source_out
            == clip.source_in + MIN_CLIP,
        clip.source_in + MIN_CLIP <= media_duration <= ticks ==> trimmed_out(
            clip,
            ticks,
            media_duration,
        ).source_out == media_duration,
        media_duration <= clip.source_in + MIN_CLIP ==> trimmed_out(
            clip,
            ticks,
            media_duration,
        ).source_out == clip.source_in + MIN_CLIP,
{
}

/// A trim of the in point lands where it was asked to: at every time from the
/// start of the media to one frame before the out point. The media and the
/// out point stay.
pub proof fn an_in_point_lands_where_it_was_asked(clip: Clip, ticks: i64)
    ensures
        0 <= ticks <= clip.source_out - MIN_CLIP ==> trimmed_in(clip, ticks) == (Clip {
            media: clip.media,
            source_in: ticks,
            source_out: clip.source_out,
        }),
        0 <= ticks <= clip.source_out - MIN_CLIP ==> trimmed_in(clip, ticks).length()
            == clip.source_out - ticks,
        trimmed_in(clip, ticks).media == clip.media,
        trimmed_in(clip, ticks).source_out == clip.source_out,
{
}

/// A trim of the in point that asks for a time before the media starts at 0,
/// and one that asks for too late a time leaves one frame; a clip that ends
/// inside the first frame of its media starts at 0.
pub proof fn an_in_point_stops_at_the_nearest_end(clip: Clip, ticks: i64)
    ensures
        ticks <= 0 ==> trimmed_in(clip, ticks).source_in == 0,
        0 <= clip.source_out - MIN_CLIP <= ticks ==> trimmed_in(clip, ticks).source_in
            == clip.source_out - MIN_CLIP,
        clip.source_out <= MIN_CLIP ==> trimmed_in(clip, ticks).source_in == 0,
{
}

/// The second of two trims decides: an end that was trimmed before is trimmed
/// as if it had not been.
pub proof fn the_last_trim_decides(clip: Clip, first: i64, second: i64, media_duration: i64)
    requires
        clip.source_in <= i64::MAX - MIN_CLIP,
    ensures
        trimmed_out(trimmed_out(clip, first, media_duration), second, media_duration)
            == trimmed_out(clip, second, media_duration),
        trimmed_in(trimmed_in(clip, first), second) == trimmed_in(clip, second),
{
}

/// A track is as long as its clips together: a clip more makes it longer by
/// what the clip plays, wherever the clip stands, and a clip that ends where
/// it starts or before plays nothing.
pub proof fn a_track_is_as_long_as_its_clips(clips: Seq<Clip>, index: int, clip: Clip)
    requires
        0 <= index <= clips.len(),
    ensures
        run_length(Seq::empty()) == 0,
        clip.source_in <= clip.source_out ==> run_length(clips.insert(index, clip)) == run_length(
            clips,
        ) + (clip.source_out - clip.source_in),
        clip.source_out <= clip.source_in ==> run_length(clips.insert(index, clip)) == run_length(
            clips,
        ),
{
    let (before, after) = (clips.take(index), clips.skip(index));
    assert(clips =~= before + after);
    assert(clips.insert(index, clip) =~= before + seq![clip] + after);
    run_length_of_one(clip);
    run_length_of_two_runs(before, after);
    run_length_of_two_runs(before + seq![clip], after);
    run_length_of_two_runs(before, seq![clip]);
}

/// The clips lie end to end from 0: the first starts at 0, each next one
/// where the one before ended, and a place past the last clip is the end of
/// the track.
pub proof fn each_clip_starts_where_the_one_before_ends(clips: Seq<Clip>, index: int)
    requires
        0 <= index < clips.len(),
    ensures
        start(clips, 0) == 0,
        clips[index].source_in <= clips[index].source_out ==> start(clips, index + 1) == start(
            clips,
            index,
        ) + (clips[index].source_out - clips[index].source_in),
        clips[index].source_out <= clips[index].source_in ==> start(clips, index + 1) == start(
            clips,
            index,
        ),
        start(clips, clips.len() as int) == run_length(clips),
{
    assert(clips.take(0) =~= Seq::empty());
    run_length_of_take(clips, index);
    assert(clips.take(clips.len() as int) =~= clips);
}

/// The playhead is over the clip that plays at its time: from the start of
/// the clip on, which is its offset 0, and before its end; only at the very
/// end of the track it rests at the end of the last clip.
pub proof fn the_playhead_is_inside_its_clip(clips: Seq<Clip>, ticks: int, index: int, offset: int)
    requires
        under(clips, ticks, index, offset),
    ensures
        0 <= index < clips.len(),
        0 <= offset,
        ticks == start(clips, index) + offset,
        ticks < run_length(clips) ==> offset < clips[index].source_out - clips[index].source_in,
        ticks >= run_length(clips) ==> index == clips.len() - 1 && start(clips, index) + offset
            == run_length(clips),
{
    run_length_of_take(clips, index);
}

/// A time inside a clip is found in that clip.
pub proof fn a_time_inside_a_clip_is_found_there(clips: Seq<Clip>, index: int, offset: int)
    requires
        0 <= index < clips.len(),
        0 <= offset < clips[index].source_out - clips[index].source_in,
    ensures
        under(clips, start(clips, index) + offset, index, offset),
{
    run_length_of_take(clips, index);
}

/// A clip can be split wherever a sixtieth of a second is left on both sides,
/// and nowhere else in it.
pub proof fn a_clip_splits_where_a_frame_is_left_on_both_sides(
    clips: Seq<Clip>,
    index: int,
    offset: int,
)
    requires
        0 <= index < clips.len(),
        0 <= offset < clips[index].source_out - clips[index].source_in,
    ensures
        60 * offset >= TICKS && 60 * (clips[index].source_out - clips[index].source_in - offset)
            >= TICKS <==> splits(clips, start(clips, index) + offset),
{
    let ticks = start(clips, index) + offset;
    a_time_inside_a_clip_is_found_there(clips, index, offset);
    if splits(clips, ticks) {
        let (i, o) = choose|i: int, o: int| #[trigger]
            under(clips, ticks, i, o) && MIN_CLIP <= o <= clips[i].length() - MIN_CLIP;
        under_is_one_place(clips, ticks, index, offset, i, o);
    }
}

/// Both halves of a split play the media of the clip, the first from where it
/// started and the second to where it ended, and every other clip stays.
pub proof fn a_split_plays_the_same(clips: Seq<Clip>, index: int, at: i64, other: int)
    requires
        0 <= index < clips.len(),
    ensures
        cut(clips, index, at).len() == clips.len() + 1,
        cut(clips, index, at)[index] == (Clip { source_out: at, ..clips[index] }),
        cut(clips, index, at)[index + 1] == (Clip { source_in: at, ..clips[index] }),
        0 <= other < index ==> cut(clips, index, at)[other] == clips[other],
        index < other < clips.len() ==> cut(clips, index, at)[other + 1] == clips[other],
{
}

/// A second is a whole number of frames of every common rate and of samples of
/// every common sound, and the shortest clip is one frame at sixty a second.
pub proof fn a_second_is_whole_in_every_rate(rate: int)
    requires
        rate == 24 || rate == 25 || rate == 30 || rate == 50 || rate == 60 || rate == 44_100 || rate
            == 48_000,
    ensures
        TICKS as int % rate == 0,
        60 * MIN_CLIP == TICKS,
{
}

/// The time of the media that plays at an offset into a clip.
pub open spec fn media_time(clip: Clip, offset: int) -> int {
    clip.source_in + offset
}

/// A clip plays its media from its in point on, tick by tick, and no further
/// than its out point.
pub proof fn a_clip_plays_its_media_from_the_in_point(clip: Clip, offset: int)
    ensures
        media_time(clip, 0) == clip.source_in,
        media_time(clip, offset + 1) == media_time(clip, offset) + 1,
        0 <= offset <= clip.source_out - clip.source_in ==> clip.source_in <= media_time(
            clip,
            offset,
        ) <= clip.source_out,
{
}

} // verus!
