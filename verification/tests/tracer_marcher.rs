use ray_tracing::marcher::{
    nearest_field, FieldSample, March, Outcome, HIT_PRECISION, MAX_DISTANCE, MAX_STEPS,
};
use ray_tracing::objects::{Material, MaterialType};
use ray_tracing::shapes::sphere_is_hit;
use ray_tracing::tracer::{
    in_shadow, nearest_hit, next_step, reflection_mode, Blocker, Reflection, Step,
};

fn some(d: f32) -> Option<u32> {
    Some(d.to_bits())
}

fn sample(d: f32, owner: usize) -> FieldSample {
    FieldSample { distance: d.to_bits(), owner }
}

fn reflective(texture: Option<usize>) -> Material {
    Material { texture, ..Material::default() }
}

fn refractive(texture: Option<usize>) -> Material {
    Material {
        texture,
        kind: MaterialType::Refractive {
            transparency: 0.9f32.to_bits(),
            refraction_index: 1.5f32.to_bits(),
            reflectivity: 0.1f32.to_bits(),
        },
        ..Material::default()
    }
}

#[test]
fn marcher_constants_are_the_patterns_of_their_numbers() {
    assert_eq!(MAX_STEPS, 255);
    assert_eq!(MAX_DISTANCE, 40.0f32.to_bits());
    assert_eq!(HIT_PRECISION, 0.001f32.to_bits());
}

#[test]
fn nearest_hit_picks_smallest_positive() {
    assert_eq!(nearest_hit(&vec![some(3.0), some(1.5), None, some(2.0)]), Some(1));
    assert_eq!(nearest_hit(&vec![some(0.5)]), Some(0));
}

#[test]
fn nearest_hit_first_wins_on_ties() {
    assert_eq!(nearest_hit(&vec![some(4.0), some(2.0), some(2.0), some(2.0)]), Some(1));
}

#[test]
fn nearest_hit_ignores_what_is_not_in_front() {
    assert_eq!(nearest_hit(&vec![]), None);
    assert_eq!(nearest_hit(&vec![None, None]), None);
    assert_eq!(nearest_hit(&vec![some(0.0), some(-0.0), some(-1.0), some(f32::NAN)]), None);
    assert_eq!(nearest_hit(&vec![some(-1.0), some(5.0), some(f32::NAN), some(0.0)]), Some(1));
    assert_eq!(nearest_hit(&vec![some(f32::NEG_INFINITY), some(f32::INFINITY)]), Some(1));
    assert_eq!(nearest_hit(&vec![some(f32::INFINITY), some(f32::MAX)]), Some(1));
}

#[test]
fn next_step_stops_at_the_bounce_budget() {
    assert_eq!(next_step(4, 4, Some(reflective(None))), Step::Stop);
    assert_eq!(next_step(5, 4, None), Step::Stop);
    assert_eq!(next_step(0, 0, None), Step::Stop);
    assert_eq!(next_step(255, 255, Some(refractive(None))), Step::Stop);
}

#[test]
fn a_miss_reaches_the_background_for_every_budget() {
    for max in 1..=255u8 {
        assert_eq!(next_step(0, max, None), Step::Background);
    }
    assert_eq!(next_step(3, 4, None), Step::Background);
}

#[test]
fn next_step_follows_the_material() {
    assert_eq!(
        next_step(0, 4, Some(reflective(None))),
        Step::Reflect { depth: 1, texture: None }
    );
    assert_eq!(
        next_step(2, 4, Some(reflective(Some(7)))),
        Step::Reflect { depth: 3, texture: Some(7) }
    );
    assert_eq!(
        next_step(3, 4, Some(refractive(Some(1)))),
        Step::Refract { depth: 4, texture: Some(1) }
    );
    assert_eq!(
        next_step(254, 255, Some(refractive(None))),
        Step::Refract { depth: 255, texture: None }
    );
}

#[test]
fn shadow_needs_another_object_before_the_light() {
    let light = 5.0f32.to_bits();
    assert!(!in_shadow(None, 0, light));
    assert!(in_shadow(Some(Blocker { object: 1, distance: 2.0f32.to_bits() }), 0, light));
    // the shaded object does not shadow itself
    assert!(!in_shadow(Some(Blocker { object: 0, distance: 2.0f32.to_bits() }), 0, light));
    // what lies behind the light does not block it
    assert!(!in_shadow(Some(Blocker { object: 1, distance: 5.0f32.to_bits() }), 0, light));
    assert!(!in_shadow(Some(Blocker { object: 1, distance: 9.0f32.to_bits() }), 0, light));
    assert!(!in_shadow(Some(Blocker { object: 1, distance: f32::NAN.to_bits() }), 0, light));
}

#[test]
fn nearest_field_picks_smallest_signed_distance() {
    let samples = vec![sample(2.0, 0), sample(-0.5, 3), sample(0.25, 4), sample(-0.5, 9)];
    assert_eq!(nearest_field(&samples), Some(1));
    assert_eq!(nearest_field(&vec![sample(1.0, 5)]), Some(0));
}

#[test]
fn nearest_field_skips_what_is_no_candidate() {
    assert_eq!(nearest_field(&vec![]), None);
    assert_eq!(nearest_field(&vec![sample(f32::MAX, 0), sample(f32::INFINITY, 1)]), None);
    assert_eq!(nearest_field(&vec![sample(f32::NAN, 0), sample(3.0, 1)]), Some(1));
    assert_eq!(nearest_field(&vec![sample(3.0, 0), sample(f32::NAN, 1)]), Some(0));
    assert_eq!(nearest_field(&vec![sample(0.0, 0), sample(-0.0, 1)]), Some(0));
}

#[test]
fn march_starts_at_the_origin() {
    let m = March::start();
    assert_eq!(m, March { steps: 0, travelled: 0 });
    assert!(m.may_sample());
}

#[test]
fn march_hits_below_the_precision() {
    let m = March::start();
    assert_eq!(
        m.advance(0.0005f32.to_bits(), 3.0f32.to_bits()),
        Outcome::Hit { distance: 3.0f32.to_bits() }
    );
    assert_eq!(
        m.advance((-0.2f32).to_bits(), 1.0f32.to_bits()),
        Outcome::Hit { distance: 1.0f32.to_bits() }
    );
    assert_eq!(
        m.advance(0.001f32.to_bits(), 1.0f32.to_bits()),
        Outcome::Continue(March { steps: 1, travelled: 1.0f32.to_bits() })
    );
    assert_eq!(
        m.advance(f32::NAN.to_bits(), f32::NAN.to_bits()),
        Outcome::Continue(March { steps: 1, travelled: f32::NAN.to_bits() })
    );
}

#[test]
fn march_misses_beyond_the_maximal_distance_or_step_count() {
    assert!(March { steps: 10, travelled: 40.0f32.to_bits() }.may_sample());
    assert!(!March { steps: 10, travelled: 40.5f32.to_bits() }.may_sample());
    assert!(March { steps: 254, travelled: 1.0f32.to_bits() }.may_sample());
    assert!(!March { steps: 255, travelled: 1.0f32.to_bits() }.may_sample());
    assert!(March { steps: 0, travelled: f32::NAN.to_bits() }.may_sample());
}

#[test]
fn march_towards_a_sphere_converges() {
    // unit sphere at the origin, ray from (0, 0, 3) towards -z
    let mut state = March::start();
    let mut t = 0.0f32;
    let mut hit = None;
    while state.may_sample() {
        let d = (3.0 - t).abs() - 1.0;
        t += d;
        match state.advance(d.to_bits(), t.to_bits()) {
            Outcome::Hit { distance } => {
                hit = Some(f32::from_bits(distance));
                break;
            }
            Outcome::Continue(next) => state = next,
        }
    }
    let distance = hit.unwrap();
    assert!((distance - 2.0).abs() < 0.002);
    assert!(state.steps <= 2);
}

#[test]
fn march_into_the_void_ends() {
    // a field that stays one unit away: the march leaves after 41 samples
    let mut state = March::start();
    let mut t = 0.0f32;
    let mut samples = 0;
    while state.may_sample() {
        t += 1.0;
        samples += 1;
        match state.advance(1.0f32.to_bits(), t.to_bits()) {
            Outcome::Hit { .. } => panic!("nothing to hit"),
            Outcome::Continue(next) => state = next,
        }
    }
    assert_eq!(samples, 41);
    // a field that never lets the march advance: the step count ends it
    let mut state = March::start();
    let mut samples = 0;
    while state.may_sample() {
        samples += 1;
        match state.advance(0.5f32.to_bits(), 0.0f32.to_bits()) {
            Outcome::Hit { .. } => panic!("nothing to hit"),
            Outcome::Continue(next) => state = next,
        }
    }
    assert_eq!(samples, 255);
}

// A ray from c + 2r*d aimed at -d meets the sphere of centre c and radius r
// at distance r.
#[test]
fn ray_aimed_at_a_sphere_hits_at_one_radius() {
    let cases: [([f32; 3], f32, [f32; 3]); 3] = [
        ([0.0, 0.0, 0.0], 1.0, [0.0, 0.0, 1.0]),
        ([1.0, -2.0, 0.5], 0.5, [1.0, 0.0, 0.0]),
        ([-3.0, 4.0, 2.0], 2.0, [0.6, 0.0, 0.8]),
    ];
    for (c, r, d) in cases {
        // in the space where the sphere is the unit sphere at the origin, the
        // ray starts at 2d and runs along -d / r
        let origin = [2.0 * d[0], 2.0 * d[1], 2.0 * d[2]];
        let dir = [-d[0] / r, -d[1] / r, -d[2] / r];
        let dot = |a: [f32; 3], b: [f32; 3]| a[0] * b[0] + a[1] * b[1] + a[2] * b[2];
        let a = dot(dir, dir);
        let b = 2.0 * dot(origin, dir);
        let cc = dot(origin, origin) - 1.0;
        let disc = b * b - 4.0 * a * cc;
        assert!(sphere_is_hit(disc.to_bits()));
        let t = (-b - disc.sqrt()) / (2.0 * a);
        assert_eq!(nearest_hit(&vec![None, Some(t.to_bits())]), Some(1));
        assert!((t - r).abs() < 1e-4, "centre {:?}", c);
        let n = [origin[0] + dir[0] * t, origin[1] + dir[1] * t, origin[2] + dir[2] * t];
        for k in 0..3 {
            assert!((n[k] - d[k]).abs() < 1e-4);
        }
    }
}

// One sphere of radius 0.5 at the origin, seen from (0, 0, 3) along -z with
// a bounce budget of 1: a hit at distance 2.5 that is shaded, not background.
#[test]
fn single_sphere_scene_is_hit_at_two_and_a_half() {
    let origin = [0.0f32, 0.0, 3.0 / 0.5];
    let dir = [0.0f32, 0.0, -1.0 / 0.5];
    let a = dir[2] * dir[2];
    let b = 2.0 * origin[2] * dir[2];
    let c = origin[2] * origin[2] - 1.0;
    let disc = b * b - 4.0 * a * c;
    assert!(sphere_is_hit(disc.to_bits()));
    let t = (-b - disc.sqrt()) / (2.0 * a);
    assert!((t - 2.5).abs() < 1e-5);
    let material = Material {
        albedo: ray_tracing::objects::Rgb {
            r: 0.9f32.to_bits(),
            g: 0.9f32.to_bits(),
            b: 0.2f32.to_bits(),
        },
        ..Material::default()
    };
    assert_eq!(nearest_hit(&vec![Some(t.to_bits())]), Some(0));
    assert_eq!(next_step(0, 1, Some(material)), Step::Reflect { depth: 1, texture: None });
    // the reflected ray has used up the budget and adds nothing
    assert_eq!(next_step(1, 1, None), Step::Stop);
    // shadows are off; had they been on, the sphere would not shadow itself
    assert!(!in_shadow(None, 0, 3.0f32.to_bits()));
}

#[test]
fn reflection_follows_the_toggles() {
    assert_eq!(reflection_mode(false, false), Reflection::Mirror);
    assert_eq!(reflection_mode(false, true), Reflection::Jittered);
    assert_eq!(reflection_mode(true, false), Reflection::Scattered);
    assert_eq!(reflection_mode(true, true), Reflection::Scattered);
}
