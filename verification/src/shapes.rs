//! Acceptance rules of the ray-primitive intersections: given the numbers
//! that the intersection arithmetic produced, whether there is a hit, on
//! which part of the primitive, and seen from which side.
//!
//! A degenerate configuration is never an error: it is the absence of a hit.
//! Numbers are binary32 bit patterns, compared as `ieee` orders them; a
//! comparison with a NaN is false.

use vstd::prelude::*;
use crate::ieee;

verus! {

/// Pattern of `1e-6`: a denominator or determinant of smaller magnitude
/// means that the ray is parallel to the surface.
pub const PARALLEL_EPSILON: u32 = 0x3586_37bd;

/// Pattern of `1e-4`: the bias that keeps a ray from hitting the surface it
/// starts on.
pub const EPSILON: u32 = 0x38d1_b717;

/// Pattern of `0.5`: half the height of the unit cylinder.
pub const HALF: u32 = 0x3f00_0000;

/// Three numbers, one per axis.
#[derive(Clone, Copy, Debug, PartialEq, Eq, Structural)]
pub struct Triple {
    pub x: u32,
    pub y: u32,
    pub z: u32,
}

/// The side of a surface that a ray arrives at.
#[derive(Clone, Copy, Debug, PartialEq, Eq, Structural)]
pub enum Facing {
    /// The side that the surface normal points to.
    Front,
    /// The other side: the normal of the hit is the flipped one.
    Back,
}

/// The stretch of a ray inside a box, with the faces through which it
/// enters.
#[derive(Clone, Copy, Debug, PartialEq, Eq, Structural)]
pub struct Span {
    pub near: u32,
    pub far: u32,
    /// Whether the ray enters through a face perpendicular to the x axis.
    pub enters_x: bool,
    /// The same for the y axis.
    pub enters_y: bool,
    /// The same for the z axis.
    pub enters_z: bool,
}

/// One of the two flat ends of a cylinder.
#[derive(Clone, Copy, Debug, PartialEq, Eq, Structural)]
pub enum Cap {
    First,
    Second,
}

/// The part of a cone that a ray hits.
#[derive(Clone, Copy, Debug, PartialEq, Eq, Structural)]
pub enum ConePart {
    Side,
    Base,
}

/// A sphere is hit unless the discriminant of its quadratic is negative.
pub open spec fn sphere_hit(discriminant: u32) -> bool {
    !ieee::lt(discriminant, ieee::ZERO)
}

/// A plane is hit unless the ray is parallel to it (a denominator of
/// magnitude below `1e-6`) or the plane lies behind the ray (`t` negative).
pub open spec fn plane_hit(denominator: u32, t: u32) -> bool {
    !ieee::lt(ieee::magnitude(denominator) as u32, PARALLEL_EPSILON) && !ieee::lt(t, ieee::ZERO)
}

/// A hit lies on a bounded plane unless it is farther from the origin than
/// the extent along x or along z.
pub open spec fn inside_extent(hit_x: u32, hit_z: u32, max_x: u32, max_z: u32) -> bool {
    !ieee::lt(max_z, ieee::magnitude(hit_z) as u32) && !ieee::lt(
        max_x,
        ieee::magnitude(hit_x) as u32,
    )
}

/// The side of a plane that a ray arrives at: the front when it runs against
/// the normal (a negative denominator).
pub open spec fn plane_facing(denominator: u32) -> Facing {
    if ieee::lt(denominator, ieee::ZERO) {
        Facing::Front
    } else {
        Facing::Back
    }
}

/// Whether a ray hits a triangle, given the determinant, the barycentric
/// coordinates `u` and `v` of the point where it meets the triangle's plane,
/// their sum, and the distance `t` to that point. There is no hit when the
/// ray is parallel to the plane, when the point is outside the triangle or
/// when it is nearer than the bias. A negative determinant is a hit on the
/// back.
pub open spec fn triangle_hit(det: u32, u: u32, v: u32, u_plus_v: u32, t: u32) -> Option<Facing> {
    if ieee::lt(ieee::magnitude(det) as u32, PARALLEL_EPSILON) {
        None
    } else if ieee::lt(u, ieee::ZERO) || ieee::lt(ieee::ONE, u) {
        None
    } else if ieee::lt(v, ieee::ZERO) || ieee::lt(ieee::ONE, u_plus_v) {
        None
    } else if ieee::lt(t, EPSILON) {
        None
    } else if ieee::lt(det, ieee::ZERO) {
        Some(Facing::Back)
    } else {
        Some(Facing::Front)
    }
}

/// The largest of three numbers.
pub open spec fn largest(t: Triple) -> u32 {
    ieee::larger(ieee::larger(t.x, t.y), t.z)
}

/// The smallest of three numbers.
pub open spec fn smallest(t: Triple) -> u32 {
    ieee::smaller(ieee::smaller(t.x, t.y), t.z)
}

/// The stretch of a ray inside an axis-aligned box, given for each axis the
/// distances at which the ray crosses the two bounding planes. The ray
/// enters where it has entered all three slabs and leaves where it leaves
/// the first one. There is none when it leaves before it enters or the box
/// lies behind the ray. The entry faces are those of the slabs entered last.
pub open spec fn box_span(low: Triple, high: Triple) -> Option<Span> {
    let enter = Triple {
        x: ieee::smaller(low.x, high.x),
        y: ieee::smaller(low.y, high.y),
        z: ieee::smaller(low.z, high.z),
    };
    let exit = Triple {
        x: ieee::larger(low.x, high.x),
        y: ieee::larger(low.y, high.y),
        z: ieee::larger(low.z, high.z),
    };
    let near = largest(enter);
    let far = smallest(exit);
    if ieee::lt(far, near) || ieee::lt(far, ieee::ZERO) {
        None
    } else {
        Some(
            Span {
                near,
                far,
                enters_x: !ieee::lt(enter.x, near),
                enters_y: !ieee::lt(enter.y, near),
                enters_z: !ieee::lt(enter.z, near),
            },
        )
    }
}

/// The side of the unit cylinder is hit when the quadratic has two roots and
/// the nearer one lies between the caps, at a height `z` of magnitude below
/// one half.
pub open spec fn cylinder_side_hit(discriminant: u32, z: u32) -> bool {
    ieee::lt(ieee::ZERO, discriminant) && ieee::lt(ieee::magnitude(z) as u32, HALF)
}

/// The cap of the unit cylinder that a ray hits, given for each cap the
/// squared distance from the axis at which the ray crosses its plane, and
/// the distance along the ray. A cap is hit inside the unit circle; of two
/// caps hit the nearer one is, the second on a tie.
pub open spec fn cylinder_cap(
    first_radius_sq: u32,
    second_radius_sq: u32,
    first_t: u32,
    second_t: u32,
) -> Option<Cap> {
    let first = ieee::lt(first_radius_sq, ieee::ONE);
    let second = ieee::lt(second_radius_sq, ieee::ONE);
    if first && second {
        if ieee::lt(first_t, second_t) {
            Some(Cap::First)
        } else {
            Some(Cap::Second)
        }
    } else if first {
        Some(Cap::First)
    } else if second {
        Some(Cap::Second)
    } else {
        None
    }
}

/// The side of the unit cone is hit when the quadratic has two roots and
/// the nearer one lies at a height `z` strictly between apex and base.
pub open spec fn cone_side_hit(discriminant: u32, z: u32) -> bool {
    ieee::lt(ieee::ZERO, discriminant) && ieee::lt(ieee::ZERO, z) && ieee::lt(z, ieee::ONE)
}

/// The part of the unit cone that a ray hits, given the distance of the hit
/// on the side, if there is one, and for the base the squared distance from
/// the axis and the distance along the ray. The base is hit inside the unit
/// circle; the side wins against it only where it is strictly nearer.
pub open spec fn cone_part(side_t: Option<u32>, base_radius_sq: u32, base_t: u32) -> Option<
    ConePart,
> {
    if ieee::lt(base_radius_sq, ieee::ONE) {
        if side_t is Some && ieee::lt(side_t->0, base_t) {
            Some(ConePart::Side)
        } else {
            Some(ConePart::Base)
        }
    } else if side_t is Some {
        Some(ConePart::Side)
    } else {
        None
    }
}

/// Decides whether a sphere is hit.
pub fn sphere_is_hit(discriminant: u32) -> (r: bool)
    ensures
        r == sphere_hit(discriminant),
{
    !ieee::less(discriminant, ieee::ZERO)
}

/// Decides whether a plane is hit.
pub fn plane_is_hit(denominator: u32, t: u32) -> (r: bool)
    ensures
        r == plane_hit(denominator, t),
{
    !ieee::less(ieee::abs(denominator), PARALLEL_EPSILON) && !ieee::less(t, ieee::ZERO)
}

/// Decides whether a hit lies on a bounded plane.
pub fn is_inside_extent(hit_x: u32, hit_z: u32, max_x: u32, max_z: u32) -> (r: bool)
    ensures
        r == inside_extent(hit_x, hit_z, max_x, max_z),
{
    !ieee::less(max_z, ieee::abs(hit_z)) && !ieee::less(max_x, ieee::abs(hit_x))
}

/// Decides which side of a plane a ray arrives at.
pub fn plane_side(denominator: u32) -> (side: Facing)
    ensures
        side == plane_facing(denominator),
{
    if ieee::less(denominator, ieee::ZERO) {
        Facing::Front
    } else {
        Facing::Back
    }
}

/// Decides whether a ray hits a triangle, and on which side.
pub fn triangle_side(det: u32, u: u32, v: u32, u_plus_v: u32, t: u32) -> (side: Option<Facing>)
    ensures
        side == triangle_hit(det, u, v, u_plus_v, t),
{
    if ieee::less(ieee::abs(det), PARALLEL_EPSILON) {
        None
    } else if ieee::less(u, ieee::ZERO) || ieee::less(ieee::ONE, u) {
        None
    } else if ieee::less(v, ieee::ZERO) || ieee::less(ieee::ONE, u_plus_v) {
        None
    } else if ieee::less(t, EPSILON) {
        None
    } else if ieee::less(det, ieee::ZERO) {
        Some(Facing::Back)
    } else {
        Some(Facing::Front)
    }
}

/// Finds the stretch of a ray inside an axis-aligned box.
pub fn box_interval(low: Triple, high: Triple) -> (span: Option<Span>)
    ensures
        span == box_span(low, high),
{
    let enter_x: u32 = ieee::min(low.x, high.x);
    let enter_y: u32 = ieee::min(low.y, high.y);
    let enter_z: u32 = ieee::min(low.z, high.z);
    let exit_x: u32 = ieee::max(low.x, high.x);
    let exit_y: u32 = ieee::max(low.y, high.y);
    let exit_z: u32 = ieee::max(low.z, high.z);
    let near: u32 = ieee::max(ieee::max(enter_x, enter_y), enter_z);
    let far: u32 = ieee::min(ieee::min(exit_x, exit_y), exit_z);
    if ieee::less(far, near) || ieee::less(far, ieee::ZERO) {
        None
    } else {
        Some(
            Span {
                near,
                far,
                enters_x: !ieee::less(enter_x, near),
                enters_y: !ieee::less(enter_y, near),
                enters_z: !ieee::less(enter_z, near),
            },
        )
    }
}

/// Decides whether the side of the unit cylinder is hit.
pub fn cylinder_side_is_hit(discriminant: u32, z: u32) -> (r: bool)
    ensures
        r == cylinder_side_hit(discriminant, z),
{
    ieee::less(ieee::ZERO, discriminant) && ieee::less(ieee::abs(z), HALF)
}

/// Decides which cap of the unit cylinder a ray hits.
pub fn cylinder_cap_hit(
    first_radius_sq: u32,
    second_radius_sq: u32,
    first_t: u32,
    second_t: u32,
) -> (cap: Option<Cap>)
    ensures
        cap == cylinder_cap(first_radius_sq, second_radius_sq, first_t, second_t),
{
    let first: bool = ieee::less(first_radius_sq, ieee::ONE);
    let second: bool = ieee::less(second_radius_sq, ieee::ONE);
    if first && second {
        if ieee::less(first_t, second_t) {
            Some(Cap::First)
        } else {
            Some(Cap::Second)
        }
    } else if first {
        Some(Cap::First)
    } else if second {
        Some(Cap::Second)
    } else {
        None
    }
}

/// Decides whether the side of the unit cone is hit.
pub fn cone_side_is_hit(discriminant: u32, z: u32) -> (r: bool)
    ensures
        r == cone_side_hit(discriminant, z),
{
    ieee::less(ieee::ZERO, discriminant) && ieee::less(ieee::ZERO, z) && ieee::less(z, ieee::ONE)
}

/// Decides which part of the unit cone a ray hits.
pub fn cone_part_hit(side_t: Option<u32>, base_radius_sq: u32, base_t: u32) -> (part: Option<
    ConePart,
>)
    ensures
        part == cone_part(side_t, base_radius_sq, base_t),
{
    if ieee::less(base_radius_sq, ieee::ONE) {
        match side_t {
            Some(t) => {
                if ieee::less(t, base_t) {
                    Some(ConePart::Side)
                } else {
                    Some(ConePart::Base)
                }
            },
            None => Some(ConePart::Base),
        }
    } else {
        match side_t {
            Some(_) => Some(ConePart::Side),
            None => None,
        }
    }
}

/// A span of a box starts no later than it ends, does not end behind the
/// ray, and the ray enters through at least one face.
pub proof fn span_is_ordered(low: Triple, high: Triple)
    requires
        box_span(low, high) is Some,
        !ieee::is_nan(low.x) && !ieee::is_nan(low.y) && !ieee::is_nan(low.z),
        !ieee::is_nan(high.x) && !ieee::is_nan(high.y) && !ieee::is_nan(high.z),
    ensures
        ieee::le(box_span(low, high)->0.near, box_span(low, high)->0.far),
        ieee::le(ieee::ZERO, box_span(low, high)->0.far),
        box_span(low, high)->0.enters_x || box_span(low, high)->0.enters_y || box_span(
            low,
            high,
        )->0.enters_z,
{
}

/// A ray parallel to a plane or to a triangle's plane hits neither, and a
/// negative discriminant is no hit on a sphere.
pub proof fn degenerate_is_no_hit(value: u32, u: u32, v: u32, u_plus_v: u32, t: u32)
    ensures
        ieee::lt(ieee::magnitude(value) as u32, PARALLEL_EPSILON) ==> !plane_hit(value, t)
            && triangle_hit(value, u, v, u_plus_v, t) is None,
        ieee::lt(value, ieee::ZERO) ==> !sphere_hit(value),
{
}

/// A triangle hit from behind is still a hit: what is a hit on the front
/// for some determinant is a hit on the back for the opposite one.
pub proof fn triangle_is_double_sided(det: u32, u: u32, v: u32, u_plus_v: u32, t: u32)
    requires
        triangle_hit(det, u, v, u_plus_v, t) == Some(Facing::Front),
        !ieee::is_nan(det),
    ensures
        triangle_hit(ieee::negated(det), u, v, u_plus_v, t) == Some(Facing::Back),
{
}

} // verus!
