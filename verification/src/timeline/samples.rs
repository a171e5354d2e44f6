//! Positions over time: which ones are believed, and which ones are kept.

use crate::bundle::TrackSample3;
use crate::float_bits::{beyond, is_beyond, Float64};
use crate::time_order::{HasTime, Timed};
use crate::timeline::TimelinePositionSample;
use vstd::prelude::*;

verus! {

/// A position in the world is farther than this from the origin on one of the
/// axes: the pattern of 100.
pub const MIN_WORLD_COORD: u64 = 0x4059_0000_0000_0000;

impl HasTime for TrackSample3 {
    open spec fn time(&self) -> u64 {
        self.t_ms
    }
}

impl Timed for TrackSample3 {
    fn time_ms(&self) -> (t: u64) {
        self.t_ms
    }
}

/// A position is one in the world, and not an unset one near the origin.
pub open spec fn is_plausible(x: Float64, y: Float64) -> bool {
    is_beyond(x, MIN_WORLD_COORD) || is_beyond(y, MIN_WORLD_COORD)
}

/// Whether a position is one in the world.
pub fn is_plausible_world_position(x: Float64, y: Float64) -> (plausible: bool)
    ensures
        plausible == is_plausible(x, y),
{
    beyond(x, MIN_WORLD_COORD) || beyond(y, MIN_WORLD_COORD)
}

/// The samples that are in the world.
pub open spec fn plausible_samples(samples: Seq<TrackSample3>) -> Seq<TrackSample3> {
    samples.filter(|s: TrackSample3| is_plausible(s.x, s.y))
}

/// Keeps the samples that are in the world.
pub fn retain_plausible(samples: &Vec<TrackSample3>) -> (kept: Vec<TrackSample3>)
    ensures
        kept@ == plausible_samples(samples@),
{
    let ghost in_world = |s: TrackSample3| is_plausible(s.x, s.y);
    let mut kept: Vec<TrackSample3> = Vec::new();
    let mut i: usize = 0;
    proof {
        reveal(Seq::filter);
        assert(samples@.take(0).filter(in_world) =~= Seq::empty());
    }
    while i < samples.len()
        invariant
            i <= samples@.len(),
            in_world == (|s: TrackSample3| is_plausible(s.x, s.y)),
            kept@ == samples@.take(i as int).filter(in_world),
        decreases samples@.len() - i,
    {
        let sample = samples[i];
        proof {
            reveal(Seq::filter);
            assert(samples@.take(i + 1).drop_last() =~= samples@.take(i as int));
            assert(samples@.take(i + 1).last() == sample);
        }
        if is_plausible_world_position(sample.x, sample.y) {
            kept.push(sample);
        }
        i += 1;
    }
    assert(samples@.take(i as int) =~= samples@);
    kept
}

/// A sample, as the timeline has it.
pub open spec fn position_of(sample: TrackSample3) -> TimelinePositionSample {
    TimelinePositionSample {
        t: sample.t_ms,
        x: sample.x,
        y: sample.y,
        z: sample.z,
        yaw: sample.yaw,
    }
}

/// The first sample, and then each that is an interval or more after the one
/// kept before it.
pub open spec fn spaced_out(samples: Seq<TrackSample3>, interval_ms: u64) -> Seq<
    TimelinePositionSample,
>
    decreases samples.len(),
{
    if samples.len() == 0 {
        Seq::empty()
    } else {
        let kept = spaced_out(samples.drop_last(), interval_ms);
        let sample = samples.last();
        if kept.len() == 0 || sample.t_ms >= kept.last().t + interval_ms {
            kept.push(position_of(sample))
        } else {
            kept
        }
    }
}

/// Keeps samples that are an interval or more apart.
pub fn downsample_track(samples: &Vec<TrackSample3>, interval_ms: u64) -> (kept: Vec<
    TimelinePositionSample,
>)
    ensures
        kept@ == spaced_out(samples@, interval_ms),
        exists|at: Seq<int>| #[trigger] are_spaced(kept@, samples@, interval_ms, at),
{
    let mut kept: Vec<TimelinePositionSample> = Vec::new();
    let mut i: usize = 0;
    while i < samples.len()
        invariant
            i <= samples@.len(),
            kept@ == spaced_out(samples@.take(i as int), interval_ms),
        decreases samples@.len() - i,
    {
        let sample = samples[i];
        assert(samples@.take(i + 1).drop_last() =~= samples@.take(i as int));
        let n: usize = kept.len();
        if n == 0 || (sample.t_ms >= kept[n - 1].t && sample.t_ms - kept[n - 1].t >= interval_ms) {
            kept.push(
                TimelinePositionSample {
                    t: sample.t_ms,
                    x: sample.x,
                    y: sample.y,
                    z: sample.z,
                    yaw: sample.yaw,
                },
            );
        }
        i += 1;
    }
    assert(samples@.take(i as int) =~= samples@);
    proof {
        let at = law_positions_are_samples(samples@, interval_ms);
        assert(are_spaced(kept@, samples@, interval_ms, at));
    }
    kept
}

/// Whether a position is one in the world depends neither on the signs of its
/// coordinates nor on which is which: it is one where a coordinate is a number
/// of a magnitude above 100.
pub proof fn law_plausible_positions(x: Float64, y: Float64)
    ensures
        is_plausible(x, y) == is_plausible(y, x),
        is_plausible(x, y) <==> {
            ||| 0x4059_0000_0000_0000 < x.bits as int % 0x8000_0000_0000_0000 <= 0x7ff0_0000_0000_0000
            ||| 0x4059_0000_0000_0000 < y.bits as int % 0x8000_0000_0000_0000 <= 0x7ff0_0000_0000_0000
        },
{
}

/// The samples that are in the world are those with a coordinate, other than the
/// height, of a magnitude above 100, in their order.
pub proof fn law_samples_in_the_world(samples: Seq<TrackSample3>)
    ensures
        plausible_samples(samples) == samples.filter(
            |s: TrackSample3|
                0x4059_0000_0000_0000 < s.x.bits as int % 0x8000_0000_0000_0000
                    <= 0x7ff0_0000_0000_0000 || 0x4059_0000_0000_0000 < s.y.bits as int
                    % 0x8000_0000_0000_0000 <= 0x7ff0_0000_0000_0000,
        ),
{
    assert((|s: TrackSample3| is_plausible(s.x, s.y)) =~= (|s: TrackSample3|
        0x4059_0000_0000_0000 < s.x.bits as int % 0x8000_0000_0000_0000 <= 0x7ff0_0000_0000_0000
            || 0x4059_0000_0000_0000 < s.y.bits as int % 0x8000_0000_0000_0000
            <= 0x7ff0_0000_0000_0000));
}

/// The samples that are kept are an interval or more apart, the first one is
/// kept, and each is one of the samples.
pub proof fn law_samples_are_apart(samples: Seq<TrackSample3>, interval_ms: u64)
    ensures
        ({
            let kept = spaced_out(samples, interval_ms);
            &&& kept.len() <= samples.len()
            &&& samples.len() > 0 ==> kept.len() > 0 && kept[0] == position_of(samples[0])
            &&& forall|i: int, j: int|
                0 <= i < j < kept.len() ==> (#[trigger] kept[j]).t >= (#[trigger] kept[i]).t
                    + interval_ms
            &&& forall|i: int|
                0 <= i < kept.len() ==> exists|k: int|
                    0 <= k < samples.len() && #[trigger] kept[i] == position_of(#[trigger] samples[k])
        }),
    decreases samples.len(),
{
    if samples.len() > 0 {
        let front = samples.drop_last();
        law_samples_are_apart(front, interval_ms);
        let before = spaced_out(front, interval_ms);
        let kept = spaced_out(samples, interval_ms);
        if before.len() == 0 {
            assert(front.len() == 0);
        }
        assert forall|i: int, j: int| 0 <= i < j < kept.len() implies (#[trigger] kept[j]).t >= (
        #[trigger] kept[i]).t + interval_ms by {
            if j == before.len() && i < before.len() - 1 {
                assert(before[before.len() - 1].t >= before[i].t + interval_ms);
            }
        }
        assert forall|i: int| 0 <= i < kept.len() implies exists|k: int|
            0 <= k < samples.len() && #[trigger] kept[i] == position_of(#[trigger] samples[k]) by {
            if i < before.len() {
                let k = choose|k: int|
                    0 <= k < front.len() && before[i] == position_of(#[trigger] front[k]);
                assert(samples[k] == front[k]);
            } else {
                assert(samples[samples.len() - 1] == samples.last());
            }
        }
    }
}

/// Positions are the samples at some indices, field by field, from the first
/// sample on: each is an interval or more after the one before it, and the
/// samples between two of them are less than an interval after the first.
pub open spec fn are_spaced(
    kept: Seq<TimelinePositionSample>,
    samples: Seq<TrackSample3>,
    interval_ms: u64,
    at: Seq<int>,
) -> bool {
    &&& at.len() == kept.len()
    &&& kept.len() == 0 <==> samples.len() == 0
    &&& forall|i: int|
        0 <= i < at.len() ==> {
            &&& 0 <= #[trigger] at[i] < samples.len()
            &&& kept[i].t == samples[at[i]].t_ms
            &&& kept[i].x == samples[at[i]].x
            &&& kept[i].y == samples[at[i]].y
            &&& kept[i].z == samples[at[i]].z
            &&& kept[i].yaw == samples[at[i]].yaw
        }
    &&& forall|i: int, j: int|
        0 <= i < j < at.len() ==> #[trigger] at[i] < #[trigger] at[j]
            && samples[at[j]].t_ms >= samples[at[i]].t_ms + interval_ms
    &&& at.len() > 0 ==> at[0] == 0
    &&& forall|i: int, j: int, k: int|
        0 <= i < at.len() && j == i + 1 && j < at.len() && #[trigger] at[i] < k
            < #[trigger] at[j] ==> (#[trigger] samples[k]).t_ms < samples[at[i]].t_ms
            + interval_ms
    &&& forall|k: int|
        at.len() > 0 && at.last() < k < samples.len() ==> (#[trigger] samples[k]).t_ms
            < samples[at.last()].t_ms + interval_ms
}

/// Each position that is kept is one of the samples, field by field. The samples
/// are taken in their order, beginning with the first; one that is passed over
/// is less than an interval after the one kept before it, and one that is kept
/// is not.
pub proof fn law_positions_are_samples(samples: Seq<TrackSample3>, interval_ms: u64) -> (at: Seq<
    int,
>)
    ensures
        are_spaced(spaced_out(samples, interval_ms), samples, interval_ms, at),
    decreases samples.len(),
{
    if samples.len() == 0 {
        Seq::empty()
    } else {
        let front = samples.drop_last();
        let before = law_positions_are_samples(front, interval_ms);
        let earlier = spaced_out(front, interval_ms);
        let last = samples.len() - 1;
        assert forall|k: int| 0 <= k < last implies #[trigger] samples[k] == front[k] by {}
        if earlier.len() == 0 || samples[last].t_ms >= earlier.last().t + interval_ms {
            let at = before.push(last);
            let kept = spaced_out(samples, interval_ms);
            assert forall|i: int, j: int| 0 <= i < j < at.len() implies #[trigger] at[i]
                < #[trigger] at[j] && samples[at[j]].t_ms >= samples[at[i]].t_ms + interval_ms by {
                if j == before.len() && i < before.len() - 1 {
                    assert(before[i] < before[before.len() - 1]);
                }
            }
            assert forall|i: int, j: int, k: int|
                0 <= i < at.len() && j == i + 1 && j < at.len() && #[trigger] at[i] < k
                    < #[trigger] at[j] implies (#[trigger] samples[k]).t_ms < samples[at[i]].t_ms
                + interval_ms by {
                assert(samples[k] == front[k]);
                assert(at[i] == before[i]);
                if j < before.len() {
                    assert(at[j] == before[j]);
                } else {
                    assert(before.last() == before[i]);
                }
            }
            at
        } else {
            assert(samples[before.last()] == front[before.last()]);
            before
        }
    }
}

/// With no interval, samples in the order of their times are all kept.
pub proof fn law_no_interval_keeps_all(samples: Seq<TrackSample3>)
    requires
        forall|i: int, j: int|
            0 <= i < j < samples.len() ==> (#[trigger] samples[i]).t_ms <= (
            #[trigger] samples[j]).t_ms,
    ensures
        spaced_out(samples, 0) == samples.map_values(|s: TrackSample3| position_of(s)),
    decreases samples.len(),
{
    if samples.len() > 0 {
        let front = samples.drop_last();
        law_no_interval_keeps_all(front);
        if front.len() > 0 {
            assert(samples[front.len() - 1].t_ms <= samples[front.len() as int].t_ms);
        }
        assert(samples.map_values(|s: TrackSample3| position_of(s)) =~= front.map_values(
            |s: TrackSample3| position_of(s),
        ).push(position_of(samples.last())));
    } else {
        assert(samples.map_values(|s: TrackSample3| position_of(s)) =~= Seq::empty());
    }
}

} // verus!
