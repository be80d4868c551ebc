use ray_tracing::shapes::{
    box_interval, cone_part_hit, cone_side_is_hit, cylinder_cap_hit, cylinder_side_is_hit,
    is_inside_extent, plane_is_hit, plane_side, sphere_is_hit, triangle_side, Cap, ConePart,
    Facing, Span, Triple, EPSILON, HALF, PARALLEL_EPSILON,
};

fn b(x: f32) -> u32 {
    x.to_bits()
}

fn triple(x: f32, y: f32, z: f32) -> Triple {
    Triple { x: b(x), y: b(y), z: b(z) }
}

#[test]
fn shape_constants_are_the_patterns_of_their_numbers() {
    assert_eq!(PARALLEL_EPSILON, 1e-6f32.to_bits());
    assert_eq!(EPSILON, 0.0001f32.to_bits());
    assert_eq!(HALF, 0.5f32.to_bits());
}

#[test]
fn sphere_needs_a_discriminant_that_is_not_negative() {
    assert!(sphere_is_hit(b(4.0)));
    assert!(sphere_is_hit(b(0.0)));
    assert!(sphere_is_hit(b(-0.0)));
    assert!(!sphere_is_hit(b(-1e-9)));
    assert!(!sphere_is_hit(b(-3.0)));
}

#[test]
fn plane_refuses_parallel_rays_and_hits_behind() {
    assert!(plane_is_hit(b(-1.0), b(2.0)));
    assert!(plane_is_hit(b(0.5), b(0.0)));
    assert!(plane_is_hit(b(1e-6), b(1.0)));
    assert!(!plane_is_hit(b(9e-7), b(1.0)));
    assert!(!plane_is_hit(b(-9e-7), b(1.0)));
    assert!(!plane_is_hit(b(0.0), b(1.0)));
    assert!(!plane_is_hit(b(-1.0), b(-0.001)));
}

#[test]
fn plane_extent_clips_a_rectangle() {
    assert!(is_inside_extent(b(4.9), b(-5.0), b(5.0), b(5.0)));
    assert!(is_inside_extent(b(0.0), b(0.0), b(5.0), b(5.0)));
    assert!(!is_inside_extent(b(5.1), b(0.0), b(5.0), b(5.0)));
    assert!(!is_inside_extent(b(0.0), b(-5.1), b(5.0), b(5.0)));
    assert!(!is_inside_extent(b(-2.5), b(0.0), b(2.0), b(5.0)));
}

#[test]
fn plane_is_seen_from_the_side_the_ray_comes_from() {
    assert_eq!(plane_side(b(-0.7)), Facing::Front);
    assert_eq!(plane_side(b(0.7)), Facing::Back);
    assert_eq!(plane_side(b(0.0)), Facing::Back);
}

#[test]
fn triangle_accepts_points_inside() {
    assert_eq!(triangle_side(b(2.0), b(0.25), b(0.25), b(0.5), b(1.0)), Some(Facing::Front));
    assert_eq!(triangle_side(b(2.0), b(0.0), b(0.0), b(0.0), b(1.0)), Some(Facing::Front));
    assert_eq!(triangle_side(b(2.0), b(1.0), b(0.0), b(1.0), b(1.0)), Some(Facing::Front));
    assert_eq!(triangle_side(b(2.0), b(0.0), b(1.0), b(1.0), b(0.0001)), Some(Facing::Front));
}

#[test]
fn triangle_is_hit_from_behind_too() {
    assert_eq!(triangle_side(b(-2.0), b(0.25), b(0.25), b(0.5), b(1.0)), Some(Facing::Back));
}

#[test]
fn triangle_refuses_degenerate_and_outside() {
    assert_eq!(triangle_side(b(0.0), b(0.25), b(0.25), b(0.5), b(1.0)), None);
    assert_eq!(triangle_side(b(5e-7), b(0.25), b(0.25), b(0.5), b(1.0)), None);
    assert_eq!(triangle_side(b(-5e-7), b(0.25), b(0.25), b(0.5), b(1.0)), None);
    assert_eq!(triangle_side(b(2.0), b(-0.01), b(0.25), b(0.24), b(1.0)), None);
    assert_eq!(triangle_side(b(2.0), b(1.01), b(0.0), b(1.01), b(1.0)), None);
    assert_eq!(triangle_side(b(2.0), b(0.25), b(-0.01), b(0.24), b(1.0)), None);
    assert_eq!(triangle_side(b(2.0), b(0.6), b(0.6), b(1.2), b(1.0)), None);
    assert_eq!(triangle_side(b(2.0), b(0.25), b(0.25), b(0.5), b(0.00009)), None);
    assert_eq!(triangle_side(b(2.0), b(0.25), b(0.25), b(0.5), b(-1.0)), None);
}

#[test]
fn box_span_of_a_ray_through_the_middle() {
    // enters x at 1, y at -inf.., a ray along +x from (-2, 0, 0) into the unit box
    let low = triple(1.0, f32::NEG_INFINITY, f32::NEG_INFINITY);
    let high = triple(3.0, f32::INFINITY, f32::INFINITY);
    assert_eq!(
        box_interval(low, high),
        Some(Span { near: b(1.0), far: b(3.0), enters_x: true, enters_y: false, enters_z: false })
    );
    // the same with the two planes of each slab swapped
    assert_eq!(
        box_interval(high, low),
        Some(Span { near: b(1.0), far: b(3.0), enters_x: true, enters_y: false, enters_z: false })
    );
}

#[test]
fn box_span_through_an_edge_enters_two_faces() {
    let span = box_interval(triple(2.0, 2.0, -1.0), triple(4.0, 5.0, 9.0)).unwrap();
    assert_eq!(span.near, b(2.0));
    assert_eq!(span.far, b(4.0));
    assert!(span.enters_x && span.enters_y && !span.enters_z);
}

#[test]
fn box_is_missed_or_behind() {
    // leaves the y slab before it enters the x slab
    assert_eq!(box_interval(triple(3.0, 0.0, 0.0), triple(5.0, 2.0, 9.0)), None);
    // the whole box lies behind the ray
    assert_eq!(box_interval(triple(-5.0, -6.0, -7.0), triple(-1.0, -2.0, -3.0)), None);
    // the ray starts inside: it enters behind the origin and leaves in front
    let span = box_interval(triple(-1.0, -2.0, -3.0), triple(1.0, 2.0, 3.0)).unwrap();
    assert_eq!((span.near, span.far), (b(-1.0), b(1.0)));
}

#[test]
fn cylinder_side_between_the_caps() {
    assert!(cylinder_side_is_hit(b(1.0), b(0.49)));
    assert!(cylinder_side_is_hit(b(1.0), b(-0.49)));
    assert!(!cylinder_side_is_hit(b(1.0), b(0.5)));
    assert!(!cylinder_side_is_hit(b(1.0), b(-0.75)));
    assert!(!cylinder_side_is_hit(b(0.0), b(0.0)));
    assert!(!cylinder_side_is_hit(b(-1.0), b(0.0)));
}

#[test]
fn cylinder_cap_nearest_valid() {
    assert_eq!(cylinder_cap_hit(b(0.5), b(0.5), b(1.0), b(2.0)), Some(Cap::First));
    assert_eq!(cylinder_cap_hit(b(0.5), b(0.5), b(2.0), b(1.0)), Some(Cap::Second));
    assert_eq!(cylinder_cap_hit(b(0.5), b(0.5), b(1.0), b(1.0)), Some(Cap::Second));
    assert_eq!(cylinder_cap_hit(b(0.5), b(1.5), b(9.0), b(1.0)), Some(Cap::First));
    assert_eq!(cylinder_cap_hit(b(1.0), b(0.99), b(1.0), b(9.0)), Some(Cap::Second));
    assert_eq!(cylinder_cap_hit(b(1.0), b(1.0), b(1.0), b(2.0)), None);
    assert_eq!(cylinder_cap_hit(b(f32::NAN), b(f32::NAN), b(1.0), b(2.0)), None);
}

#[test]
fn cone_side_between_apex_and_base() {
    assert!(cone_side_is_hit(b(1.0), b(0.5)));
    assert!(!cone_side_is_hit(b(1.0), b(0.0)));
    assert!(!cone_side_is_hit(b(1.0), b(1.0)));
    assert!(!cone_side_is_hit(b(1.0), b(-0.5)));
    assert!(!cone_side_is_hit(b(0.0), b(0.5)));
}

#[test]
fn cone_part_prefers_the_nearer() {
    assert_eq!(cone_part_hit(Some(b(1.0)), b(0.5), b(2.0)), Some(ConePart::Side));
    assert_eq!(cone_part_hit(Some(b(2.0)), b(0.5), b(1.0)), Some(ConePart::Base));
    assert_eq!(cone_part_hit(Some(b(1.0)), b(0.5), b(1.0)), Some(ConePart::Base));
    assert_eq!(cone_part_hit(None, b(0.5), b(1.0)), Some(ConePart::Base));
    assert_eq!(cone_part_hit(Some(b(3.0)), b(1.5), b(1.0)), Some(ConePart::Side));
    assert_eq!(cone_part_hit(None, b(1.5), b(1.0)), None);
}
