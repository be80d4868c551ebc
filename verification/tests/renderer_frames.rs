use ray_tracing::renderer::{
    chunk_seed, clamp_rgba, is_idle, plan_chunks, settle_pixel, write_chunk, Chunk, FrameSettings, Pixel,
    Renderer, Rgba, Settled,
};

fn rgba(r: f32, g: f32, b: f32, a: f32) -> Rgba {
    Rgba { r: r.to_bits(), g: g.to_bits(), b: b.to_bits(), a: a.to_bits() }
}

const ZERO: Rgba = Rgba { r: 0, g: 0, b: 0, a: 0 };

fn accumulating(max_frames: u32) -> FrameSettings {
    FrameSettings { max_frames, enable_accumulation: true, diffuse: false }
}

fn still(max_frames: u32) -> FrameSettings {
    FrameSettings { max_frames, enable_accumulation: false, diffuse: false }
}

#[test]
fn new_renderer_is_empty_at_frame_one() {
    let r = Renderer::new();
    assert_eq!(r.frame_index, 1);
    assert!(r.accumulated.is_empty());
}

#[test]
fn plan_even_division() {
    let plan = plan_chunks(12, 3);
    assert_eq!(
        plan,
        vec![
            Chunk { size: 4, pixel_offset: 0 },
            Chunk { size: 4, pixel_offset: 4 },
            Chunk { size: 4, pixel_offset: 8 },
        ]
    );
}

#[test]
fn plan_with_remainder_adds_a_short_chunk() {
    let plan = plan_chunks(10, 3);
    assert_eq!(
        plan,
        vec![
            Chunk { size: 3, pixel_offset: 0 },
            Chunk { size: 3, pixel_offset: 3 },
            Chunk { size: 3, pixel_offset: 6 },
            Chunk { size: 1, pixel_offset: 9 },
        ]
    );
}

#[test]
fn plan_single_chunk_and_one_pixel_chunks() {
    assert_eq!(plan_chunks(7, 1), vec![Chunk { size: 7, pixel_offset: 0 }]);
    let plan = plan_chunks(5, 5);
    assert_eq!(plan.len(), 5);
    for (k, c) in plan.iter().enumerate() {
        assert_eq!(*c, Chunk { size: 1, pixel_offset: k });
    }
    // 2n - 1 pixels for n tasks: chunks of one pixel each
    assert_eq!(plan_chunks(9, 5).len(), 9);
}

#[test]
fn plan_is_a_partition() {
    for pixels in 1usize..60 {
        for n in 1..=pixels {
            let plan = plan_chunks(pixels, n);
            assert!(plan.len() >= n);
            let mut next = 0usize;
            for c in &plan {
                assert_eq!(c.pixel_offset, next);
                assert!(c.size > 0 && c.size <= pixels / n);
                next += c.size;
            }
            assert_eq!(next, pixels);
        }
    }
}

#[test]
fn begin_frame_with_update_resets() {
    let mut r = Renderer { accumulated: vec![rgba(1.0, 2.0, 3.0, 1.0); 3], frame_index: 17 };
    let plan = r.begin_frame(4, 2, true, accumulating(100), 2);
    assert_eq!(r.frame_index, 1);
    assert_eq!(r.accumulated, vec![ZERO; 8]);
    assert_eq!(
        plan,
        Some(vec![Chunk { size: 4, pixel_offset: 0 }, Chunk { size: 4, pixel_offset: 4 }])
    );
}

#[test]
fn begin_frame_without_update_keeps_state() {
    let buffer = vec![rgba(1.0, 2.0, 3.0, 1.0), rgba(0.5, 0.5, 0.5, 1.0)];
    let mut r = Renderer { accumulated: buffer.clone(), frame_index: 5 };
    let plan = r.begin_frame(2, 1, false, accumulating(100), 1);
    assert_eq!(r.frame_index, 5);
    assert_eq!(r.accumulated, buffer);
    assert_eq!(plan, Some(vec![Chunk { size: 2, pixel_offset: 0 }]));
}

#[test]
fn frame_budget_stops_rendering() {
    let mut r = Renderer { accumulated: vec![ZERO; 2], frame_index: 11 };
    assert_eq!(r.begin_frame(2, 1, false, accumulating(10), 1), None);
    r.frame_index = 10;
    assert!(r.begin_frame(2, 1, false, accumulating(10), 1).is_some());
    // an update restarts at frame 1, which a budget of zero still refuses
    assert_eq!(r.begin_frame(2, 1, true, accumulating(0), 1), None);
    assert_eq!(r.frame_index, 1);
}

#[test]
fn still_image_renders_once() {
    let mut r = Renderer::new();
    let plan = r.begin_frame(2, 2, true, still(1000), 2).unwrap();
    let parts: Vec<Vec<Rgba>> = plan.iter().map(|c| r.chunk_slice(*c)).collect();
    r.end_frame(&parts);
    assert_eq!(r.frame_index, 2);
    assert_eq!(r.begin_frame(2, 2, false, still(1000), 2), None);
    // in diffuse mode the image keeps refining
    let diffuse = FrameSettings { max_frames: 1000, enable_accumulation: false, diffuse: true };
    assert!(r.begin_frame(2, 2, false, diffuse, 2).is_some());
    // idle calls need no chunk count at all
    assert_eq!(r.begin_frame(2, 2, false, still(1000), 0), None);
}

#[test]
fn chunk_slice_copies_its_range() {
    let buffer: Vec<Rgba> = (0..6).map(|i| rgba(i as f32, 0.0, 0.0, 1.0)).collect();
    let r = Renderer { accumulated: buffer.clone(), frame_index: 1 };
    assert_eq!(r.chunk_slice(Chunk { size: 2, pixel_offset: 3 }), buffer[3..5].to_vec());
    assert_eq!(r.chunk_slice(Chunk { size: 0, pixel_offset: 6 }), vec![]);
    assert_eq!(r.chunk_slice(Chunk { size: 6, pixel_offset: 0 }), buffer);
}

#[test]
fn end_frame_merges_in_order_and_counts() {
    let mut r = Renderer { accumulated: vec![ZERO; 5], frame_index: 3 };
    let a = rgba(0.1, 0.2, 0.3, 1.0);
    let b = rgba(0.4, 0.5, 0.6, 1.0);
    let c = rgba(0.7, 0.8, 0.9, 1.0);
    r.end_frame(&vec![vec![a, b], vec![], vec![c]]);
    assert_eq!(r.accumulated, vec![a, b, c, ZERO, ZERO]);
    assert_eq!(r.frame_index, 4);
}

#[test]
fn frame_round_trip_restores_offsets() {
    let mut r = Renderer::new();
    let plan = r.begin_frame(5, 2, true, accumulating(10), 3).unwrap();
    let mut parts: Vec<Vec<Rgba>> = Vec::new();
    for c in &plan {
        let mut part = r.chunk_slice(*c);
        for (i, slot) in part.iter_mut().enumerate() {
            *slot = rgba((c.pixel_offset + i) as f32, 0.0, 0.0, 1.0);
        }
        parts.push(part);
    }
    r.end_frame(&parts);
    for (i, acc) in r.accumulated.iter().enumerate() {
        assert_eq!(*acc, rgba(i as f32, 0.0, 0.0, 1.0));
    }
    assert_eq!(r.frame_index, 2);
}

#[test]
fn resize_equals_a_render_from_scratch() {
    let shade = |r: &mut Renderer, w: usize, h: usize, updated: bool| {
        let plan = r.begin_frame(w, h, updated, accumulating(50), 2).unwrap();
        let parts: Vec<Vec<Rgba>> = plan
            .iter()
            .map(|c| {
                r.chunk_slice(*c)
                    .iter()
                    .map(|acc| rgba(f32::from_bits(acc.r) + 0.25, 0.5, 0.75, 1.0))
                    .collect()
            })
            .collect();
        r.end_frame(&parts);
    };
    let mut used = Renderer::new();
    shade(&mut used, 4, 4, true);
    shade(&mut used, 4, 4, false);
    shade(&mut used, 4, 4, false);
    assert_eq!(used.frame_index, 4);
    shade(&mut used, 3, 2, true);

    let mut fresh = Renderer::new();
    shade(&mut fresh, 3, 2, true);

    assert_eq!(used.frame_index, 2);
    assert_eq!(used.frame_index, fresh.frame_index);
    assert_eq!(used.accumulated, fresh.accumulated);
    assert_eq!(used.accumulated, vec![rgba(0.25, 0.5, 0.75, 1.0); 6]);
}

#[test]
fn write_chunk_places_bytes() {
    let mut img = vec![9u8; 16];
    let colors = vec![Pixel { r: 1, g: 2, b: 3, a: 255 }, Pixel { r: 4, g: 5, b: 6, a: 255 }];
    write_chunk(&mut img, Chunk { size: 2, pixel_offset: 1 }, &colors);
    assert_eq!(img, vec![9, 9, 9, 9, 1, 2, 3, 255, 4, 5, 6, 255, 9, 9, 9, 9]);
    write_chunk(&mut img, Chunk { size: 0, pixel_offset: 4 }, &vec![]);
    assert_eq!(img, vec![9, 9, 9, 9, 1, 2, 3, 255, 4, 5, 6, 255, 9, 9, 9, 9]);
}

#[test]
fn clamp_rgba_clamps_each_channel() {
    let c = clamp_rgba(rgba(-0.5, 0.25, 7.0, f32::NAN));
    assert_eq!(c, rgba(0.0, 0.25, 1.0, 0.0));
}

#[test]
fn chunk_seeds_differ() {
    assert_eq!(chunk_seed(0, 0), 0);
    assert_eq!(chunk_seed(1, 0), 0x1_0000_0000);
    assert_eq!(chunk_seed(3, 7), 0x3_0000_0007);
    assert_eq!(chunk_seed(u32::MAX, u32::MAX), u64::MAX);
    let mut seen = std::collections::HashSet::new();
    for frame in 1..20u32 {
        for chunk in 0..20u32 {
            assert!(seen.insert(chunk_seed(frame, chunk)));
        }
    }
}

#[test]
fn accumulated_pixels_keep_the_sum_and_show_the_mean() {
    let sample = rgba(0.5, 3.0, -1.0, 1.0);
    let sum = rgba(1.5, 9.0, -3.0, 3.0);
    let mean = rgba(0.5, 3.0, -1.0, 1.0);
    assert_eq!(
        settle_pixel(true, sample, sum, mean),
        Settled { stored: sum, shown: rgba(0.5, 1.0, 0.0, 1.0) }
    );
}

#[test]
fn overwritten_pixels_keep_what_they_show() {
    let sample = rgba(0.5, 3.0, -1.0, 1.0);
    let other = rgba(7.0, 7.0, 7.0, 7.0);
    assert_eq!(
        settle_pixel(false, sample, other, other),
        Settled { stored: rgba(0.5, 1.0, 0.0, 1.0), shown: rgba(0.5, 1.0, 0.0, 1.0) }
    );
}

#[test]
fn idle_follows_budget_and_mode() {
    assert!(!is_idle(1, still(5)));
    assert!(is_idle(2, still(5)));
    assert!(!is_idle(5, accumulating(5)));
    assert!(is_idle(6, accumulating(5)));
    assert!(is_idle(1, accumulating(0)));
    let diffuse = FrameSettings { max_frames: 3, enable_accumulation: false, diffuse: true };
    assert!(!is_idle(3, diffuse));
    assert!(is_idle(4, diffuse));
}
