//! Decisions of the sphere-tracing ray marcher: which distance-field sample
//! is the nearest, and whether a march goes on, has converged or has left
//! the scene.
//!
//! Distances are binary32 bit patterns, compared as `ieee` orders them.

use vstd::prelude::*;
use crate::ieee;

verus! {

/// Most samples that one march takes.
pub const MAX_STEPS: usize = 255;

/// Pattern of `40.0`: a march that has travelled farther has missed.
pub const MAX_DISTANCE: u32 = 0x4220_0000;

/// Pattern of `0.001`: a sample below it is a hit.
pub const HIT_PRECISION: u32 = 0x3a83_126f;

/// The distance field of one scene object at the marched point.
#[derive(Clone, Copy, Debug, PartialEq, Eq, Structural)]
pub struct FieldSample {
    /// Signed distance to the surface, as a bit pattern.
    pub distance: u32,
    /// Index of the leaf object that owns the distance.
    pub owner: usize,
}

/// Progress of one march along a ray.
#[derive(Clone, Copy, Debug, PartialEq, Eq, Structural)]
pub struct March {
    /// Samples taken so far.
    pub steps: usize,
    /// Distance travelled from the ray's origin, as a bit pattern.
    pub travelled: u32,
}

/// What a sample does to a march.
#[derive(Clone, Copy, Debug, PartialEq, Eq, Structural)]
pub enum Outcome {
    /// The surface is reached at `distance` from the ray's origin.
    Hit { distance: u32 },
    /// The march goes on from the given state.
    Continue(March),
}

/// Whether sample `i` can be the nearest: its distance is a number below the
/// largest finite one.
pub open spec fn is_candidate(samples: Seq<FieldSample>, i: int) -> bool {
    0 <= i < samples.len() && ieee::lt(samples[i].distance, ieee::MAX_FINITE)
}

/// Whether sample `i` is the nearest: no candidate is nearer, and every
/// candidate before it is strictly farther.
pub open spec fn is_nearest_field(samples: Seq<FieldSample>, i: int) -> bool {
    &&& is_candidate(samples, i)
    &&& forall|j: int|
        0 <= j < i && #[trigger] is_candidate(samples, j) ==> ieee::lt(
            samples[i].distance,
            samples[j].distance,
        )
    &&& forall|j: int|
        i < j && #[trigger] is_candidate(samples, j) ==> ieee::le(
            samples[i].distance,
            samples[j].distance,
        )
}

/// Whether a march in this state takes another sample: it has steps left and
/// has not travelled beyond the maximal distance.
pub open spec fn goes_on(state: March) -> bool {
    state.steps < MAX_STEPS && !ieee::lt(MAX_DISTANCE, state.travelled)
}

/// Whether a sample at this distance counts as reaching the surface.
pub open spec fn has_converged(nearest: u32) -> bool {
    ieee::lt(nearest, HIT_PRECISION)
}

/// The outcome of a sample with least distance `nearest`, after which the
/// march has travelled `travelled` in all.
pub open spec fn outcome_of(state: March, nearest: u32, travelled: u32) -> Outcome {
    if has_converged(nearest) {
        Outcome::Hit { distance: travelled }
    } else {
        Outcome::Continue(March { steps: (state.steps + 1) as usize, travelled })
    }
}

/// Finds the nearest of the distance-field samples, one per marched object
/// in the order in which the scene lists them.
///
/// Returns the position of the winning sample, or `None` when no sample is a
/// candidate. Of several samples at the least distance the first wins.
pub fn nearest_field(samples: &Vec<FieldSample>) -> (nearest: Option<usize>)
    ensures
        match nearest {
            Some(i) => is_nearest_field(samples@, i as int),
            None => forall|j: int| !is_candidate(samples@, j),
        },
{
    let mut best: Option<usize> = None;
    let mut least: u32 = ieee::MAX_FINITE;
    let mut k: usize = 0;
    while k < samples.len()
        invariant
            k <= samples.len(),
            match best {
                Some(i) => i < k && least == samples@[i as int].distance && is_nearest_field(
                    samples@.take(k as int),
                    i as int,
                ),
                None => least == ieee::MAX_FINITE && forall|j: int|
                    !is_candidate(samples@.take(k as int), j),
            },
        decreases samples.len() - k,
    {
        let ghost before = samples@.take(k as int);
        let ghost after = samples@.take(k as int + 1);
        assert(forall|j: int| 0 <= j < k ==> before[j] == after[j]);
        assert(forall|j: int|
            0 <= j < k ==> (is_candidate(before, j) <==> is_candidate(after, j)));
        let d: u32 = samples[k].distance;
        if ieee::less(d, least) {
            proof {
                if best is Some {
                    ieee::lt_is_strict_order(d, least, ieee::MAX_FINITE);
                }
                assert(is_candidate(after, k as int));
                assert forall|j: int| 0 <= j < k && #[trigger] is_candidate(after, j) implies ieee::lt(
                    d,
                    after[j].distance,
                ) by {
                    assert(is_candidate(before, j));
                    let i = best->0 as int;
                    ieee::lt_is_strict_order(d, before[i].distance, before[j].distance);
                }
            }
            best = Some(k);
            least = d;
        } else {
            proof {
                if best is Some {
                    let i = best->0 as int;
                    assert(is_candidate(before, i));
                    assert(is_candidate(after, i));
                    assert forall|j: int| i < j && #[trigger] is_candidate(after, j) implies ieee::le(
                        after[i].distance,
                        after[j].distance,
                    ) by {
                        if j < k {
                            assert(is_candidate(before, j));
                        } else {
                            ieee::lt_is_total_on_numbers(after[j].distance, after[i].distance);
                        }
                    }
                    assert forall|j: int| 0 <= j < i && #[trigger] is_candidate(after, j) implies ieee::lt(
                        after[i].distance,
                        after[j].distance,
                    ) by {
                        assert(is_candidate(before, j));
                    }
                } else {
                    assert forall|j: int| !is_candidate(after, j) by {
                        if 0 <= j < k {
                            assert(!is_candidate(before, j));
                        }
                    }
                }
            }
        }
        k = k + 1;
    }
    assert(samples@.take(k as int) =~= samples@);
    best
}

impl March {
    /// The state in which every march starts: at the ray's origin, no sample
    /// taken.
    pub fn start() -> (state: March)
        ensures
            state == (March { steps: 0, travelled: ieee::ZERO }),
    {
        March { steps: 0, travelled: ieee::ZERO }
    }

    /// Decides whether the march takes another sample. When it does not, the
    /// ray has missed.
    pub fn may_sample(&self) -> (r: bool)
        ensures
            r == goes_on(*self),
    {
        self.steps < MAX_STEPS && !ieee::less(MAX_DISTANCE, self.travelled)
    }

    /// Takes in one sample: `nearest` is the least distance of the field at
    /// the marched point, `travelled` the distance from the ray's origin once
    /// that step is added.
    pub fn advance(self, nearest: u32, travelled: u32) -> (outcome: Outcome)
        requires
            goes_on(self),
        ensures
            outcome == outcome_of(self, nearest, travelled),
    {
        if ieee::less(nearest, HIT_PRECISION) {
            Outcome::Hit { distance: travelled }
        } else {
            Outcome::Continue(March { steps: self.steps + 1, travelled })
        }
    }
}

/// At most one sample is the nearest.
pub proof fn nearest_field_is_unique(samples: Seq<FieldSample>, i: int, j: int)
    requires
        is_nearest_field(samples, i),
        is_nearest_field(samples, j),
    ensures
        i == j,
{
    if i < j {
        ieee::lt_is_total_on_numbers(samples[i].distance, samples[j].distance);
    } else if j < i {
        ieee::lt_is_total_on_numbers(samples[j].distance, samples[i].distance);
    }
}

/// A march ends after at most `MAX_STEPS` samples: each sample that does not
/// end it adds one step, and with `MAX_STEPS` steps no further sample is
/// taken. A distance that is no number never counts as a hit.
pub proof fn march_is_bounded(state: March, nearest: u32, travelled: u32)
    requires
        goes_on(state),
    ensures
        match outcome_of(state, nearest, travelled) {
            Outcome::Hit { distance } => has_converged(nearest) && distance == travelled,
            Outcome::Continue(next) => !has_converged(nearest) && next.steps == state.steps + 1
                && next.steps <= MAX_STEPS && next.travelled == travelled,
        },
        ieee::is_nan(nearest) ==> outcome_of(state, nearest, travelled) is Continue,
        forall|s: March| s.steps >= MAX_STEPS ==> !goes_on(s),
{
}

} // verus!
