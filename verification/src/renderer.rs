//! Frame bookkeeping of the tile-parallel renderer: when a frame is due, how
//! the pixel range is cut into chunks, and how the accumulation buffer is
//! reset, handed out and merged.
//!
//! Shading itself happens elsewhere. A frame runs in three steps: `begin_frame`
//! decides and plans, the caller shades every chunk on a private copy obtained
//! from `chunk_slice`, and `end_frame` merges the copies and counts the frame.

use vstd::prelude::*;
use crate::ieee;

verus! {

/// One accumulator: the running sums of the four channels, each the bit
/// pattern of a binary32 number.
#[derive(Clone, Copy, Debug, PartialEq, Eq, Structural)]
pub struct Rgba {
    pub r: u32,
    pub g: u32,
    pub b: u32,
    pub a: u32,
}

/// A contiguous range of pixel indices shaded by one task.
#[derive(Clone, Copy, Debug, PartialEq, Eq, Structural)]
pub struct Chunk {
    /// Number of pixels in the range.
    pub size: usize,
    /// Index of the first pixel of the range.
    pub pixel_offset: usize,
}

/// The scene toggles that decide whether another frame is rendered.
#[derive(Clone, Copy, Debug, PartialEq, Eq, Structural)]
pub struct FrameSettings {
    pub max_frames: u32,
    pub enable_accumulation: bool,
    pub diffuse: bool,
}

/// One output pixel, eight bits per channel.
#[derive(Clone, Copy, Debug, PartialEq, Eq, Structural)]
pub struct Pixel {
    pub r: u8,
    pub g: u8,
    pub b: u8,
    pub a: u8,
}

/// Owner of the accumulation buffer and of the frame counter.
pub struct Renderer {
    pub accumulated: Vec<Rgba>,
    pub frame_index: u32,
}

/// What a renderer holds, as mathematical values.
pub struct RendererView {
    pub accumulated: Seq<Rgba>,
    pub frame_index: int,
}

impl View for Renderer {
    type V = RendererView;

    open spec fn view(&self) -> RendererView {
        RendererView { accumulated: self.accumulated@, frame_index: self.frame_index as int }
    }
}

/// The accumulator with all four sums at `+0.0`.
pub open spec fn zero_rgba() -> Rgba {
    Rgba { r: 0, g: 0, b: 0, a: 0 }
}

/// Pixels per chunk: the pixel count divided evenly, rounded down.
pub open spec fn chunk_pixels(pixels: int, num_chunks: int) -> int
    recommends
        num_chunks > 0,
{
    pixels / num_chunks
}

/// Number of chunks of `size` pixels needed to cover `pixels` pixels, the
/// last one possibly shorter.
pub open spec fn chunk_count(pixels: int, size: int) -> int
    recommends
        size > 0,
{
    (pixels + size - 1) / size
}

/// The `k`-th chunk of a plan with chunks of `size` pixels.
pub open spec fn planned_chunk(pixels: int, size: int, k: int) -> Chunk {
    Chunk {
        size: (if (k + 1) * size <= pixels {
            size
        } else {
            pixels - k * size
        }) as usize,
        pixel_offset: (k * size) as usize,
    }
}

/// Whether `plan` is the partition of `pixels` pixels for `num_chunks` tasks:
/// full chunks of `chunk_pixels` pixels from index 0 on, then the rest.
pub open spec fn is_plan(plan: Seq<Chunk>, pixels: int, num_chunks: int) -> bool {
    let size = chunk_pixels(pixels, num_chunks);
    &&& plan.len() == chunk_count(pixels, size)
    &&& forall|k: int| 0 <= k < plan.len() ==> #[trigger] plan[k] == planned_chunk(pixels, size, k)
}

/// Whether no frame is to be computed: the frame budget is used up, or a
/// static image was already rendered once and nothing would refine it.
pub open spec fn frame_is_idle(frame_index: u32, settings: FrameSettings) -> bool {
    frame_index > settings.max_frames || (frame_index > 1 && !settings.enable_accumulation
        && !settings.diffuse)
}

proof fn lemma_chunk_count_bounds(pixels: int, size: int)
    requires
        size > 0,
        pixels >= 0,
    ensures
        (chunk_count(pixels, size) - 1) * size < pixels || pixels == 0,
        chunk_count(pixels, size) * size >= pixels,
        chunk_count(pixels, size) >= 0,
        pixels == 0 ==> chunk_count(pixels, size) == 0,
{
    let c = chunk_count(pixels, size);
    assert(c * size <= pixels + size - 1 && c * size > pixels - 1 && c >= 0 && (pixels == 0 ==> c
        == 0)) by (nonlinear_arith)
        requires
            c == (pixels + size - 1) / size,
            size > 0,
            pixels >= 0,
    ;
    assert((c - 1) * size == c * size - size) by (nonlinear_arith);
}

/// The accumulator with every channel brought into the unit interval.
pub open spec fn clamped(color: Rgba) -> Rgba {
    Rgba {
        r: ieee::clamped_to_unit(color.r),
        g: ieee::clamped_to_unit(color.g),
        b: ieee::clamped_to_unit(color.b),
        a: ieee::clamped_to_unit(color.a),
    }
}

/// The seed of the random generator of chunk `chunk` in frame
/// `frame_index`: the frame number in the upper half, the chunk number in
/// the lower.
pub open spec fn seed_of(frame_index: u32, chunk: u32) -> u64 {
    (frame_index * 0x1_0000_0000 + chunk) as u64
}

/// What becomes of one pixel in a frame.
#[derive(Clone, Copy, Debug, PartialEq, Eq, Structural)]
pub struct Settled {
    /// The accumulator that the chunk's slice keeps.
    pub stored: Rgba,
    /// The colour that is turned into bytes, every channel in the unit
    /// interval.
    pub shown: Rgba,
}

/// The outcome of one pixel: while frames are accumulated the slice keeps
/// the running sum and the clamped mean is shown; else the clamped sample is
/// both kept and shown.
pub open spec fn settled(enable_accumulation: bool, sample: Rgba, sum: Rgba, mean: Rgba) -> Settled {
    if enable_accumulation {
        Settled { stored: sum, shown: clamped(mean) }
    } else {
        Settled { stored: clamped(sample), shown: clamped(sample) }
    }
}

/// Decides what a pixel's accumulator keeps and what is shown of it, given
/// the frame's `sample`, the running `sum` with that sample added, and the
/// `mean`, which is that sum divided by the frame number.
pub fn settle_pixel(enable_accumulation: bool, sample: Rgba, sum: Rgba, mean: Rgba) -> (r: Settled)
    ensures
        r == settled(enable_accumulation, sample, sum, mean),
{
    if enable_accumulation {
        Settled { stored: sum, shown: clamp_rgba(mean) }
    } else {
        let color: Rgba = clamp_rgba(sample);
        Settled { stored: color, shown: color }
    }
}

/// Brings every channel of a colour into the unit interval, as is done
/// before a colour is turned into bytes.
pub fn clamp_rgba(color: Rgba) -> (r: Rgba)
    ensures
        r == clamped(color),
{
    Rgba {
        r: ieee::clamp_unit(color.r),
        g: ieee::clamp_unit(color.g),
        b: ieee::clamp_unit(color.b),
        a: ieee::clamp_unit(color.a),
    }
}

/// Gives the seed with which a chunk's own random generator starts a frame.
pub fn chunk_seed(frame_index: u32, chunk: u32) -> (seed: u64)
    ensures
        seed == seed_of(frame_index, chunk),
{
    let upper: u64 = frame_index as u64 * 0x1_0000_0000;
    upper + chunk as u64
}

/// No two chunks of any two frames share a seed.
pub proof fn seeds_are_distinct(frame_a: u32, chunk_a: u32, frame_b: u32, chunk_b: u32)
    ensures
        seed_of(frame_a, chunk_a) == seed_of(frame_b, chunk_b) ==> frame_a == frame_b && chunk_a
            == chunk_b,
{
}

/// Decides whether no frame is to be computed at this frame number.
pub fn is_idle(frame_index: u32, settings: FrameSettings) -> (r: bool)
    ensures
        r == frame_is_idle(frame_index, settings),
{
    frame_index > settings.max_frames || (frame_index > 1 && !settings.enable_accumulation
        && !settings.diffuse)
}

/// Cuts `pixels` pixels into chunks for `num_chunks` tasks.
pub fn plan_chunks(pixels: usize, num_chunks: usize) -> (plan: Vec<Chunk>)
    requires
        0 < num_chunks <= pixels,
    ensures
        is_plan(plan@, pixels as int, num_chunks as int),
{
    let size: usize = pixels / num_chunks;
    assert(size > 0) by (nonlinear_arith)
        requires
            size == pixels as int / num_chunks as int,
            0 < num_chunks <= pixels,
    ;
    let mut plan: Vec<Chunk> = Vec::new();
    let mut offset: usize = 0;
    proof {
        lemma_chunk_count_bounds(pixels as int, size as int);
        assert(plan.len() * size == 0) by (nonlinear_arith)
            requires
                plan.len() == 0,
        ;
    }
    while offset < pixels
        invariant
            size > 0,
            0 < num_chunks <= pixels,
            size == chunk_pixels(pixels as int, num_chunks as int),
            offset <= pixels,
            plan.len() <= chunk_count(pixels as int, size as int),
            offset < pixels ==> offset == plan.len() * size,
            offset == pixels ==> plan.len() == chunk_count(pixels as int, size as int),
            forall|k: int|
                0 <= k < plan.len() ==> #[trigger] plan[k] == planned_chunk(
                    pixels as int,
                    size as int,
                    k,
                ),
        decreases pixels - offset,
    {
        let rest: usize = pixels - offset;
        let len: usize = if rest < size {
            rest
        } else {
            size
        };
        let ghost k = plan.len() as int;
        proof {
            lemma_chunk_count_bounds(pixels as int, size as int);
            let c = chunk_count(pixels as int, size as int);
            assert((k + 1) * size == k * size + size) by (nonlinear_arith);
            // k < c, because k * size < pixels <= c * size
            assert(k < c) by (nonlinear_arith)
                requires
                    k * size < pixels,
                    c * size >= pixels,
                    size > 0,
            ;
            if offset + len == pixels {
                // (k + 1) * size >= pixels > (c - 1) * size, so k + 1 >= c
                assert(k + 1 >= c) by (nonlinear_arith)
                    requires
                        (k + 1) * size >= pixels,
                        (c - 1) * size < pixels,
                        size > 0,
                ;
            }
        }
        plan.push(Chunk { size: len, pixel_offset: offset });
        offset = offset + len;
    }
    plan
}

/// A buffer of `pixels` accumulators, all zero.
pub open spec fn zeros(pixels: int) -> Seq<Rgba> {
    Seq::new(pixels as nat, |i: int| zero_rgba())
}

/// The state in which the first frame at a resolution of `pixels` pixels
/// starts: an all-zero buffer and frame 1.
pub open spec fn fresh(pixels: int) -> RendererView {
    RendererView { accumulated: zeros(pixels), frame_index: 1 }
}

/// The state with which a frame starts: a fresh one when the resolution or
/// the camera changed, else the state as it was.
pub open spec fn after_begin(state: RendererView, pixels: int, updated: bool) -> RendererView {
    if updated {
        fresh(pixels)
    } else {
        state
    }
}

/// The slices of all chunks laid end to end.
pub open spec fn concat(parts: Seq<Vec<Rgba>>) -> Seq<Rgba>
    decreases parts.len(),
{
    if parts.len() == 0 {
        Seq::empty()
    } else {
        concat(parts.drop_last()) + parts.last()@
    }
}

/// The state after a frame whose chunks left the slices `parts`: the slices
/// replace the front of the buffer in order, and one more frame is counted.
pub open spec fn after_end(state: RendererView, parts: Seq<Vec<Rgba>>) -> RendererView {
    let merged = concat(parts);
    RendererView {
        accumulated: merged + state.accumulated.skip(merged.len() as int),
        frame_index: state.frame_index + 1,
    }
}

/// The channel of `pixel` that is stored `channel` bytes into its quadruple.
pub open spec fn channel_of(pixel: Pixel, channel: int) -> u8 {
    if channel == 0 {
        pixel.r
    } else if channel == 1 {
        pixel.g
    } else if channel == 2 {
        pixel.b
    } else {
        pixel.a
    }
}

/// The image after the pixels `colors` were written over the range of
/// `chunk`: four bytes per pixel in the order red, green, blue, alpha, every
/// byte outside the range untouched.
pub open spec fn with_chunk(img: Seq<u8>, chunk: Chunk, colors: Seq<Pixel>) -> Seq<u8> {
    Seq::new(
        img.len(),
        |i: int|
            if 4 * chunk.pixel_offset <= i < 4 * (chunk.pixel_offset + chunk.size) {
                channel_of(
                    colors[(i - 4 * chunk.pixel_offset) / 4],
                    (i - 4 * chunk.pixel_offset) % 4,
                )
            } else {
                img[i]
            },
    )
}

impl Renderer {
    /// A renderer before its first frame: no buffer yet, frame 1.
    pub fn new() -> (renderer: Renderer)
        ensures
            renderer@ == fresh(0),
    {
        let renderer = Renderer { accumulated: Vec::new(), frame_index: 1 };
        assert(renderer@.accumulated =~= zeros(0));
        renderer
    }

    /// Starts a frame at `width` by `height` pixels.
    ///
    /// With `updated` the buffer is replaced by a zeroed one of the new size
    /// and counting restarts at frame 1. Returns the chunks to shade, or
    /// `None` when no frame is due.
    pub fn begin_frame(
        &mut self,
        width: usize,
        height: usize,
        updated: bool,
        settings: FrameSettings,
        num_chunks: usize,
    ) -> (plan: Option<Vec<Chunk>>)
        requires
            width * height <= usize::MAX,
            !updated ==> old(self)@.accumulated.len() == width * height,
            !frame_is_idle(
                if updated {
                    1
                } else {
                    old(self).frame_index
                },
                settings,
            ) ==> 0 < num_chunks <= width * height,
        ensures
            final(self)@ == after_begin(old(self)@, width * height, updated),
            final(self)@.accumulated.len() == width * height,
            plan is None <==> frame_is_idle(final(self).frame_index, settings),
            plan is Some ==> is_plan(plan->0@, width * height, num_chunks as int),
    {
        assert(width * height >= 0) by (nonlinear_arith);
        let pixels: usize = width * height;
        if updated {
            let mut buffer: Vec<Rgba> = Vec::new();
            let mut i: usize = 0;
            while i < pixels
                invariant
                    i <= pixels,
                    buffer@ =~= zeros(i as int),
                decreases pixels - i,
            {
                buffer.push(Rgba { r: 0, g: 0, b: 0, a: 0 });
                i = i + 1;
            }
            self.accumulated = buffer;
            self.frame_index = 1;
        }
        if is_idle(self.frame_index, settings) {
            None
        } else {
            Some(plan_chunks(pixels, num_chunks))
        }
    }

    /// A private copy of the accumulators of `chunk`.
    pub fn chunk_slice(&self, chunk: Chunk) -> (part: Vec<Rgba>)
        requires
            chunk.pixel_offset + chunk.size <= self@.accumulated.len(),
        ensures
            part@ == self@.accumulated.subrange(
                chunk.pixel_offset as int,
                chunk.pixel_offset + chunk.size,
            ),
    {
        let mut part: Vec<Rgba> = Vec::new();
        let total: usize = self.accumulated.len();
        let mut i: usize = 0;
        while i < chunk.size
            invariant
                i <= chunk.size,
                total == self.accumulated@.len(),
                chunk.pixel_offset + chunk.size <= self.accumulated@.len(),
                part@ =~= self.accumulated@.subrange(
                    chunk.pixel_offset as int,
                    chunk.pixel_offset + i,
                ),
            decreases chunk.size - i,
        {
            part.push(self.accumulated[chunk.pixel_offset + i]);
            i = i + 1;
        }
        part
    }

    /// Ends a frame: copies the chunks' slices back into the buffer, one
    /// after the other from index 0 on, and counts the frame.
    pub fn end_frame(&mut self, parts: &Vec<Vec<Rgba>>)
        requires
            concat(parts@).len() <= old(self)@.accumulated.len(),
            old(self).frame_index < u32::MAX,
        ensures
            final(self)@ == after_end(old(self)@, parts@),
            final(self)@.accumulated.len() == old(self)@.accumulated.len(),
            final(self).frame_index == old(self).frame_index + 1,
    {
        let mut offset: usize = 0;
        let mut k: usize = 0;
        let ghost before = self.accumulated@;
        let total: usize = self.accumulated.len();
        while k < parts.len()
            invariant
                k <= parts.len(),
                total == before.len(),
                concat(parts@).len() <= before.len(),
                offset == concat(parts@.take(k as int)).len(),
                offset <= concat(parts@).len(),
                self.accumulated@.len() == before.len(),
                self.accumulated@ =~= concat(parts@.take(k as int)) + before.skip(offset as int),
                self.frame_index == old(self).frame_index,
            decreases parts.len() - k,
        {
            let part = &parts[k];
            proof {
                lemma_concat_take_step(parts@, k as int);
                lemma_concat_take_len(parts@, k as int + 1);
            }
            let mut i: usize = 0;
            while i < part.len()
                invariant
                    i <= part.len(),
                    k < parts.len(),
                    total == before.len(),
                    part == &parts@[k as int],
                    offset + part.len() <= before.len(),
                    self.accumulated@.len() == before.len(),
                    self.accumulated@ =~= concat(parts@.take(k as int)) + part@.take(i as int)
                        + before.skip(offset + i),
                    offset == concat(parts@.take(k as int)).len(),
                    self.frame_index == old(self).frame_index,
                decreases part.len() - i,
            {
                self.accumulated.set(offset + i, part[i]);
                i = i + 1;
            }
            assert(part@.take(part.len() as int) =~= part@);
            offset = offset + part.len();
            k = k + 1;
        }
        assert(parts@.take(parts.len() as int) =~= parts@);
        self.frame_index = self.frame_index + 1;
    }
}

proof fn lemma_concat_take_step(parts: Seq<Vec<Rgba>>, k: int)
    requires
        0 <= k < parts.len(),
    ensures
        concat(parts.take(k + 1)) == concat(parts.take(k)) + parts[k]@,
{
    assert(parts.take(k + 1).drop_last() =~= parts.take(k));
}

proof fn lemma_concat_take_len(parts: Seq<Vec<Rgba>>, k: int)
    requires
        0 <= k <= parts.len(),
    ensures
        concat(parts.take(k)).len() <= concat(parts).len(),
    decreases parts.len() - k,
{
    if k == parts.len() {
        assert(parts.take(k) =~= parts);
    } else {
        lemma_concat_take_step(parts, k);
        lemma_concat_take_len(parts, k + 1);
    }
}

/// Writes the pixels of one chunk into the image, four bytes per pixel.
pub fn write_chunk(img: &mut Vec<u8>, chunk: Chunk, colors: &Vec<Pixel>)
    requires
        colors@.len() == chunk.size,
        4 * (chunk.pixel_offset + chunk.size) <= old(img)@.len(),
    ensures
        final(img)@ == with_chunk(old(img)@, chunk, colors@),
{
    let total: usize = img.len();
    let base: usize = 4 * chunk.pixel_offset;
    let mut pos: usize = 0;
    while pos < chunk.size
        invariant
            pos <= chunk.size,
            total == img@.len(),
            colors@.len() == chunk.size,
            base == 4 * chunk.pixel_offset,
            4 * (chunk.pixel_offset + chunk.size) <= old(img)@.len(),
            img@.len() == old(img)@.len(),
            forall|i: int|
                0 <= i < img@.len() ==> #[trigger] img@[i] == if base <= i < base + 4 * pos {
                    channel_of(colors@[(i - base) / 4], (i - base) % 4)
                } else {
                    old(img)@[i]
                },
        decreases chunk.size - pos,
    {
        let color: Pixel = colors[pos];
        let at: usize = base + 4 * pos;
        img.set(at, color.r);
        img.set(at + 1, color.g);
        img.set(at + 2, color.b);
        img.set(at + 3, color.a);
        pos = pos + 1;
    }
    assert(img@ =~= with_chunk(old(img)@, chunk, colors@));
}

/// Whether the slices `parts` have the lengths of the chunks of `plan`, one
/// slice per chunk.
pub open spec fn parts_match(parts: Seq<Vec<Rgba>>, plan: Seq<Chunk>) -> bool {
    &&& parts.len() == plan.len()
    &&& forall|k: int| 0 <= k < plan.len() ==> (#[trigger] parts[k])@.len() == plan[k].size
}

/// A plan is a partition of the pixel range into non-empty, contiguous
/// ranges in ascending order: it starts at pixel 0, every chunk begins where
/// the one before it ends, the last one ends at the last pixel, and no task
/// is left without a chunk.
pub proof fn plan_partitions_pixels(plan: Seq<Chunk>, pixels: int, num_chunks: int)
    requires
        0 < num_chunks <= pixels <= usize::MAX,
        is_plan(plan, pixels, num_chunks),
    ensures
        plan.len() >= num_chunks,
        plan[0].pixel_offset == 0,
        forall|k: int|
            0 <= k < plan.len() ==> 0 < (#[trigger] plan[k]).size <= chunk_pixels(
                pixels,
                num_chunks,
            ),
        forall|k: int|
            0 <= k < plan.len() - 1 ==> (#[trigger] plan[k]).pixel_offset + plan[k].size
                == plan[k + 1].pixel_offset,
        plan.last().pixel_offset + plan.last().size == pixels,
{
    let size = chunk_pixels(pixels, num_chunks);
    assert(size > 0 && size * num_chunks <= pixels) by (nonlinear_arith)
        requires
            size == pixels / num_chunks,
            0 < num_chunks <= pixels,
    ;
    let c = chunk_count(pixels, size);
    lemma_chunk_count_bounds(pixels, size);
    assert(c >= num_chunks) by (nonlinear_arith)
        requires
            c * size >= pixels,
            size * num_chunks <= pixels,
            size > 0,
    ;
    assert forall|k: int| 0 <= k < plan.len() implies 0 < (#[trigger] plan[k]).size <= size by {
        lemma_chunk_bounds(pixels, size, k);
        assert(plan[k] == planned_chunk(pixels, size, k));
    }
    assert forall|k: int| 0 <= k < plan.len() - 1 implies (#[trigger] plan[k]).pixel_offset
        + plan[k].size == plan[k + 1].pixel_offset by {
        assert(plan[k] == planned_chunk(pixels, size, k));
        assert(plan[k + 1] == planned_chunk(pixels, size, k + 1));
        lemma_chunk_bounds(pixels, size, k);
        lemma_chunk_bounds(pixels, size, k + 1);
    }
    assert(plan[0] == planned_chunk(pixels, size, 0));
    assert(plan[c - 1] == planned_chunk(pixels, size, c - 1));
    lemma_chunk_bounds(pixels, size, 0);
    lemma_chunk_bounds(pixels, size, c - 1);
    assert(c * size == (c - 1) * size + size) by (nonlinear_arith);
}

proof fn lemma_chunk_bounds(pixels: int, size: int, k: int)
    requires
        size > 0,
        pixels > 0,
        0 <= k < chunk_count(pixels, size),
    ensures
        0 <= k * size < pixels,
        (k + 1) * size == k * size + size,
        (k + 1) * size <= pixels || k == chunk_count(pixels, size) - 1,
{
    let c = chunk_count(pixels, size);
    lemma_chunk_count_bounds(pixels, size);
    assert(0 <= k * size && k * size <= (c - 1) * size && (k + 1) * size == k * size + size)
        by (nonlinear_arith)
        requires
            0 <= k <= c - 1,
            size > 0,
    ;
    if k < c - 1 {
        assert((k + 1) * size <= (c - 1) * size) by (nonlinear_arith)
            requires
                k + 1 <= c - 1,
                size > 0,
        ;
    }
}

/// A chunk covers whole pixels: cutting the image's bytes, four per pixel,
/// into `num_chunks` parts and rounding down to a multiple of four bytes
/// gives the bytes of `chunk_pixels` pixels.
pub proof fn chunk_bytes_are_whole_pixels(pixels: int, num_chunks: int)
    requires
        0 < num_chunks,
        0 <= pixels,
    ensures
        ((4 * pixels) / (num_chunks * 4)) * 4 == 4 * chunk_pixels(pixels, num_chunks),
{
    let q = pixels / num_chunks;
    let r = pixels % num_chunks;
    assert(pixels == q * num_chunks + r && 0 <= r < num_chunks) by (nonlinear_arith)
        requires
            q == pixels / num_chunks,
            r == pixels % num_chunks,
            num_chunks > 0,
    ;
    assert((4 * pixels) / (num_chunks * 4) == q) by (nonlinear_arith)
        requires
            pixels == q * num_chunks + r,
            0 <= r < num_chunks,
            num_chunks > 0,
    ;
}

/// Every pixel belongs to exactly one chunk of a plan: the one whose number
/// is the pixel's index divided by the chunk size.
pub proof fn plan_assigns_each_pixel_once(
    plan: Seq<Chunk>,
    pixels: int,
    num_chunks: int,
    pixel: int,
    k: int,
)
    requires
        0 < num_chunks <= pixels <= usize::MAX,
        is_plan(plan, pixels, num_chunks),
        0 <= pixel < pixels,
        0 <= k < plan.len(),
    ensures
        0 <= pixel / chunk_pixels(pixels, num_chunks) < plan.len(),
        (plan[k].pixel_offset <= pixel < plan[k].pixel_offset + plan[k].size) <==> k == pixel
            / chunk_pixels(pixels, num_chunks),
{
    let size = chunk_pixels(pixels, num_chunks);
    let c = chunk_count(pixels, size);
    assert(size > 0) by (nonlinear_arith)
        requires
            size == pixels / num_chunks,
            0 < num_chunks <= pixels,
    ;
    lemma_chunk_count_bounds(pixels, size);
    lemma_chunk_bounds(pixels, size, k);
    assert(plan[k] == planned_chunk(pixels, size, k));
    let owner = pixel / size;
    assert(owner * size <= pixel < owner * size + size && owner >= 0) by (nonlinear_arith)
        requires
            owner == pixel / size,
            size > 0,
            pixel >= 0,
    ;
    assert(owner < c) by (nonlinear_arith)
        requires
            owner * size <= pixel,
            pixel < pixels,
            pixels <= c * size,
            size > 0,
    ;
    if plan[k].pixel_offset <= pixel < plan[k].pixel_offset + plan[k].size {
        assert(k == owner) by (nonlinear_arith)
            requires
                k * size <= pixel < k * size + size,
                owner * size <= pixel < owner * size + size,
                size > 0,
        ;
    }
    if k == owner {
        if (k + 1) * size > pixels {
        }
    }
}

/// Starting a frame after a change of resolution or camera leaves nothing of
/// the earlier state: the buffer has the new size and is all zero, the next
/// frame is frame 1, and the frame that follows ends in the state in which
/// it would end on a renderer that was never used before.
pub proof fn resize_starts_from_scratch(
    state: RendererView,
    pixels: int,
    parts: Seq<Vec<Rgba>>,
)
    requires
        pixels >= 0,
    ensures
        after_begin(state, pixels, true).frame_index == 1,
        after_begin(state, pixels, true).accumulated.len() == pixels,
        forall|i: int|
            0 <= i < pixels ==> #[trigger] after_begin(state, pixels, true).accumulated[i]
                == zero_rgba(),
        after_begin(state, pixels, true) == after_begin(fresh(0), pixels, true),
        after_end(after_begin(state, pixels, true), parts) == after_end(
            after_begin(fresh(0), pixels, true),
            parts,
        ),
{
}

/// A frame that is not restarted keeps the buffer and the frame number it
/// found, and ending it counts exactly one frame.
pub proof fn frame_counts_once(state: RendererView, pixels: int, parts: Seq<Vec<Rgba>>)
    ensures
        after_begin(state, pixels, false) == state,
        after_end(state, parts).frame_index == state.frame_index + 1,
{
}

/// Without accumulation and outside diffuse mode only frame 1 is rendered;
/// otherwise frames are rendered up to the frame budget and no further.
pub proof fn idle_rule(frame_index: u32, settings: FrameSettings)
    ensures
        frame_index > settings.max_frames ==> frame_is_idle(frame_index, settings),
        !settings.enable_accumulation && !settings.diffuse && frame_index >= 1 ==> (frame_is_idle(
            frame_index,
            settings,
        ) <==> frame_index > 1 || settings.max_frames == 0),
        settings.enable_accumulation || settings.diffuse ==> (frame_is_idle(
            frame_index,
            settings,
        ) <==> frame_index > settings.max_frames),
{
}

proof fn lemma_concat_matching(parts: Seq<Vec<Rgba>>, plan: Seq<Chunk>, pixels: int, num_chunks: int, k: int)
    requires
        0 < num_chunks <= pixels <= usize::MAX,
        is_plan(plan, pixels, num_chunks),
        parts_match(parts, plan),
        0 <= k <= plan.len(),
    ensures
        k < plan.len() ==> concat(parts.take(k)).len() == plan[k].pixel_offset,
        k == plan.len() ==> concat(parts.take(k)).len() == pixels,
    decreases k,
{
    plan_partitions_pixels(plan, pixels, num_chunks);
    if k == 0 {
        assert(parts.take(0).len() == 0);
    } else {
        lemma_concat_matching(parts, plan, pixels, num_chunks, k - 1);
        lemma_concat_take_step(parts, k - 1);
        assert(parts[k - 1]@.len() == plan[k - 1].size);
    }
}

/// When every chunk of a plan hands back a slice of its own length, ending
/// the frame replaces the whole buffer, and each accumulator lands at the
/// pixel it was copied from: entry `i` of the slice of chunk `k` at index
/// `pixel_offset + i`.
pub proof fn merge_restores_offsets(
    state: RendererView,
    parts: Seq<Vec<Rgba>>,
    plan: Seq<Chunk>,
    pixels: int,
    num_chunks: int,
    k: int,
    i: int,
)
    requires
        0 < num_chunks <= pixels <= usize::MAX,
        state.accumulated.len() == pixels,
        is_plan(plan, pixels, num_chunks),
        parts_match(parts, plan),
        0 <= k < plan.len(),
        0 <= i < plan[k].size,
    ensures
        concat(parts).len() == pixels,
        after_end(state, parts).accumulated == concat(parts),
        after_end(state, parts).accumulated[plan[k].pixel_offset + i] == parts[k]@[i],
{
    lemma_concat_matching(parts, plan, pixels, num_chunks, plan.len() as int);
    assert(parts.take(plan.len() as int) =~= parts);
    assert(after_end(state, parts).accumulated =~= concat(parts));
    lemma_concat_matching(parts, plan, pixels, num_chunks, k);
    lemma_concat_prefix(parts, k + 1);
    lemma_concat_take_step(parts, k);
    let at = plan[k].pixel_offset + i;
    let front = concat(parts.take(k + 1));
    assert(parts[k]@.len() == plan[k].size);
    assert(front[at] == parts[k]@[i]);
    assert(front[at] == concat(parts).take(front.len() as int)[at]);
}

proof fn lemma_concat_prefix(parts: Seq<Vec<Rgba>>, k: int)
    requires
        0 <= k <= parts.len(),
    ensures
        concat(parts.take(k)).len() <= concat(parts).len(),
        concat(parts.take(k)) =~= concat(parts).take(concat(parts.take(k)).len() as int),
    decreases parts.len() - k,
{
    if k == parts.len() {
        assert(parts.take(k) =~= parts);
    } else {
        lemma_concat_take_step(parts, k);
        lemma_concat_prefix(parts, k + 1);
    }
}

} // verus!
