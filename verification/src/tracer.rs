//! Decisions of the recursive ray tracer: which hit is the nearest, what a
//! ray does next, and whether a light is blocked.
//!
//! Distances are binary32 bit patterns, compared as `ieee` orders them.

use vstd::prelude::*;
use crate::ieee;
use crate::objects::{Material, MaterialType};

verus! {

/// The first object that a shadow ray met.
#[derive(Clone, Copy, Debug, PartialEq, Eq, Structural)]
pub struct Blocker {
    /// Index of the object in the scene.
    pub object: usize,
    /// Distance from the shaded point, as a bit pattern.
    pub distance: u32,
}

/// What the tracer does with a ray.
#[derive(Clone, Copy, Debug, PartialEq, Eq, Structural)]
pub enum Step {
    /// The bounce budget is used up: the light gathered so far is the result.
    Stop,
    /// The ray left the scene: the ambient colour, weighted by the ray's
    /// contribution, is added to the light gathered so far.
    Background,
    /// Shade the hit and follow one reflection ray at `depth`.
    Reflect { depth: u8, texture: Option<usize> },
    /// Follow the refraction ray, where there is one, and always the mirror
    /// ray, both at `depth`.
    Refract { depth: u8, texture: Option<usize> },
}

/// How the reflection ray of a reflective surface is chosen.
#[derive(Clone, Copy, Debug, PartialEq, Eq, Structural)]
pub enum Reflection {
    /// The mirror direction about the surface normal.
    Mirror,
    /// The mirror direction about a normal jittered in proportion to the
    /// roughness, a fresh jitter each frame.
    Jittered,
    /// A direction drawn uniformly around the normal, whatever came in.
    Scattered,
}

/// The reflection that the scene toggles ask for: scattered in diffuse
/// mode, else jittered while frames are accumulated, else the plain mirror.
pub open spec fn reflection_of(diffuse: bool, enable_accumulation: bool) -> Reflection {
    if diffuse {
        Reflection::Scattered
    } else if enable_accumulation {
        Reflection::Jittered
    } else {
        Reflection::Mirror
    }
}

/// Whether entry `i` holds a hit that counts: one at a distance above zero.
pub open spec fn is_valid_hit(distances: Seq<Option<u32>>, i: int) -> bool {
    0 <= i < distances.len() && distances[i] is Some && ieee::is_positive(distances[i]->0)
}

/// Whether entry `i` is the nearest valid hit: no valid hit is nearer, and
/// every valid hit before it is strictly farther.
pub open spec fn is_nearest_hit(distances: Seq<Option<u32>>, i: int) -> bool {
    &&& is_valid_hit(distances, i)
    &&& forall|j: int|
        0 <= j < i && #[trigger] is_valid_hit(distances, j) ==> ieee::lt(
            distances[i]->0,
            distances[j]->0,
        )
    &&& forall|j: int|
        i < j && #[trigger] is_valid_hit(distances, j) ==> ieee::le(
            distances[i]->0,
            distances[j]->0,
        )
}

/// The step that a ray at `depth` takes, given the material at its nearest
/// hit or `None` where it hit nothing.
pub open spec fn step_of(depth: u8, max_ray_bounces: u8, hit: Option<Material>) -> Step {
    if depth >= max_ray_bounces {
        Step::Stop
    } else {
        match hit {
            None => Step::Background,
            Some(material) => match material.kind {
                MaterialType::Reflective { .. } => Step::Reflect {
                    depth: (depth + 1) as u8,
                    texture: material.texture,
                },
                MaterialType::Refractive { .. } => Step::Refract {
                    depth: (depth + 1) as u8,
                    texture: material.texture,
                },
            },
        }
    }
}

/// Whether a light at `light_distance` from the shaded point is blocked,
/// given what the shadow ray towards it hit first: some other object, nearer
/// than the light.
pub open spec fn is_blocked(
    blocker: Option<Blocker>,
    shaded_object: usize,
    light_distance: u32,
) -> bool {
    match blocker {
        None => false,
        Some(b) => b.object != shaded_object && ieee::lt(b.distance, light_distance),
    }
}

/// Finds the nearest hit of a ray among the objects' answers, one entry per
/// object in scene order: `None` for a miss, else the distance along the ray.
///
/// Returns the index of the object hit, or `None` when no entry is a hit at a
/// distance above zero. Of several hits at the least distance the first wins.
pub fn nearest_hit(distances: &Vec<Option<u32>>) -> (hit: Option<usize>)
    ensures
        match hit {
            Some(i) => is_nearest_hit(distances@, i as int),
            None => forall|j: int| !is_valid_hit(distances@, j),
        },
{
    let mut best: Option<usize> = None;
    let mut best_distance: u32 = ieee::ZERO;
    let mut k: usize = 0;
    while k < distances.len()
        invariant
            k <= distances.len(),
            match best {
                Some(i) => i < k && best_distance == distances@[i as int]->0 && is_nearest_hit(
                    distances@.take(k as int),
                    i as int,
                ),
                None => forall|j: int| !is_valid_hit(distances@.take(k as int), j),
            },
        decreases distances.len() - k,
    {
        let ghost before = distances@.take(k as int);
        let ghost after = distances@.take(k as int + 1);
        assert(forall|j: int| 0 <= j < k ==> before[j] == after[j]);
        assert(forall|j: int|
            0 <= j < k ==> (is_valid_hit(before, j) <==> is_valid_hit(after, j)));
        let mut wins: bool = false;
        match distances[k] {
            Some(d) => {
                if ieee::positive(d) {
                    wins = match best {
                        None => true,
                        Some(_) => ieee::less(d, best_distance),
                    };
                }
            },
            None => {},
        }
        if wins {
            let d: u32 = distances[k].unwrap();
            proof {
                assert(is_valid_hit(after, k as int));
                assert forall|j: int| 0 <= j < k && #[trigger] is_valid_hit(after, j) implies ieee::lt(
                    d,
                    after[j]->0,
                ) by {
                    assert(is_valid_hit(before, j));
                    let i = best->0 as int;
                    if j < i {
                        ieee::lt_is_strict_order(d, before[i]->0, before[j]->0);
                    } else if j > i {
                        ieee::lt_is_strict_order(d, before[i]->0, before[j]->0);
                    }
                }
            }
            best = Some(k);
            best_distance = d;
        } else {
            proof {
                if best is Some {
                    let i = best->0 as int;
                    assert(is_valid_hit(before, i));
                    assert(is_valid_hit(after, i));
                    assert forall|j: int| i < j && #[trigger] is_valid_hit(after, j) implies ieee::le(
                        after[i]->0,
                        after[j]->0,
                    ) by {
                        if j < k {
                            assert(is_valid_hit(before, j));
                        } else {
                            ieee::lt_is_total_on_numbers(after[j]->0, after[i]->0);
                        }
                    }
                    assert forall|j: int| 0 <= j < i && #[trigger] is_valid_hit(after, j) implies ieee::lt(
                        after[i]->0,
                        after[j]->0,
                    ) by {
                        assert(is_valid_hit(before, j));
                    }
                } else {
                    assert forall|j: int| !is_valid_hit(after, j) by {
                        if 0 <= j < k {
                            assert(!is_valid_hit(before, j));
                        }
                    }
                }
            }
        }
        k = k + 1;
    }
    assert(distances@.take(k as int) =~= distances@);
    best
}

/// Decides what a ray at `depth` does, given the material at its nearest hit
/// or `None` where it hit nothing.
pub fn next_step(depth: u8, max_ray_bounces: u8, hit: Option<Material>) -> (step: Step)
    ensures
        step == step_of(depth, max_ray_bounces, hit),
{
    if depth >= max_ray_bounces {
        Step::Stop
    } else {
        match hit {
            None => Step::Background,
            Some(material) => match material.kind {
                MaterialType::Reflective { .. } => Step::Reflect {
                    depth: depth + 1,
                    texture: material.texture,
                },
                MaterialType::Refractive { .. } => Step::Refract {
                    depth: depth + 1,
                    texture: material.texture,
                },
            },
        }
    }
}

/// Decides how the reflection ray of a reflective surface is chosen.
pub fn reflection_mode(diffuse: bool, enable_accumulation: bool) -> (mode: Reflection)
    ensures
        mode == reflection_of(diffuse, enable_accumulation),
{
    if diffuse {
        Reflection::Scattered
    } else if enable_accumulation {
        Reflection::Jittered
    } else {
        Reflection::Mirror
    }
}

/// Decides whether the light at `light_distance` is blocked for a point on
/// `shaded_object`, given the nearest hit of the shadow ray as object index
/// and distance.
pub fn in_shadow(blocker: Option<Blocker>, shaded_object: usize, light_distance: u32) -> (r: bool)
    ensures
        r == is_blocked(blocker, shaded_object, light_distance),
{
    match blocker {
        None => false,
        Some(b) => b.object != shaded_object && ieee::less(b.distance, light_distance),
    }
}

/// At most one entry is the nearest hit.
pub proof fn nearest_hit_is_unique(distances: Seq<Option<u32>>, i: int, j: int)
    requires
        is_nearest_hit(distances, i),
        is_nearest_hit(distances, j),
    ensures
        i == j,
{
    if i < j {
        ieee::lt_is_strict_order(distances[j]->0, distances[i]->0, distances[j]->0);
        ieee::lt_is_total_on_numbers(distances[i]->0, distances[j]->0);
    } else if j < i {
        ieee::lt_is_strict_order(distances[i]->0, distances[j]->0, distances[i]->0);
        ieee::lt_is_total_on_numbers(distances[j]->0, distances[i]->0);
    }
}

/// A primary ray that hits nothing takes the background step whatever the
/// bounce budget is, as long as there is one: the ambient colour is its
/// result. With a budget of zero every ray stops at once.
pub proof fn miss_reaches_background(max_ray_bounces: u8)
    ensures
        max_ray_bounces > 0 ==> step_of(0, max_ray_bounces, None) == Step::Background,
        max_ray_bounces == 0 ==> step_of(0, max_ray_bounces, None) == Step::Stop,
{
}

/// Every step either ends the ray or continues one level deeper, and never
/// beyond the bounce budget: the recursion is at most `max_ray_bounces` deep.
pub proof fn steps_descend(depth: u8, max_ray_bounces: u8, hit: Option<Material>)
    ensures
        match step_of(depth, max_ray_bounces, hit) {
            Step::Stop => depth >= max_ray_bounces,
            Step::Background => depth < max_ray_bounces && hit is None,
            Step::Reflect { depth: next, texture } => next == depth + 1 && next <= max_ray_bounces
                && hit is Some && hit->0.kind is Reflective && hit->0.texture == texture,
            Step::Refract { depth: next, texture } => next == depth + 1 && next <= max_ray_bounces
                && hit is Some && hit->0.kind is Refractive && hit->0.texture == texture,
        },
{
}

} // verus!
