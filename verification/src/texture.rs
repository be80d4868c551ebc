//! Decoded images and the addressing of their pixels.
//!
//! A texture holds three bytes per pixel (red, green, blue), row by row from
//! the top-left corner.

use vstd::prelude::*;
use crate::errors::AppError;

verus! {

/// A decoded image.
#[derive(Debug, Clone)]
pub struct Texture {
    /// Where the image came from.
    pub path: String,
    pub width: u32,
    pub height: u32,
    /// The pixels, three bytes each, row-major.
    pub bytes: Vec<u8>,
}

/// Namespace of the functions that turn decoded images into textures.
pub struct ImageUtils {}

/// Offset of the first byte of pixel (`x`, `y`) in an image `width` pixels
/// wide.
pub open spec fn pixel_offset(width: int, x: int, y: int) -> int {
    y * 3 * width + x * 3
}

impl Texture {
    /// Whether the buffer holds exactly the pixels that the dimensions
    /// announce.
    pub open spec fn wf(self) -> bool {
        self.bytes@.len() == 3 * self.width * self.height
    }

    /// The three bytes of pixel (`x`, `y`).
    pub open spec fn rgb_at(self, x: int, y: int) -> (u8, u8, u8) {
        let at = pixel_offset(self.width as int, x, y);
        (self.bytes@[at], self.bytes@[at + 1], self.bytes@[at + 2])
    }

    /// A texture that only knows where its image is: no pixels yet.
    pub fn new(path: &str) -> (texture: Texture)
        ensures
            texture.path@ == path@,
            texture.width == 0,
            texture.height == 0,
            texture.bytes@.len() == 0,
            texture.wf(),
    {
        Texture { path: path.to_string(), width: 0, height: 0, bytes: Vec::new() }
    }

    /// Tells whether the texture can be sampled: it has at least one pixel
    /// and its buffer matches its dimensions.
    pub fn is_loaded(&self) -> (r: bool)
        ensures
            r == (self.wf() && self.width >= 1 && self.height >= 1),
    {
        assert(0 <= 3 * self.width * self.height <= 3 * 0xffff_ffff * 0xffff_ffff)
            by (nonlinear_arith)
            requires
                0 <= self.width <= 0xffff_ffff,
                0 <= self.height <= 0xffff_ffff,
        ;
        let expected: u128 = 3 * (self.width as u128) * (self.height as u128);
        self.bytes.len() as u128 == expected && self.width >= 1 && self.height >= 1
    }

    /// Reads the pixel in column `x` of row `y`.
    pub fn pixel(&self, x: u32, y: u32) -> (rgb: (u8, u8, u8))
        requires
            self.wf(),
            x < self.width,
            y < self.height,
        ensures
            rgb == self.rgb_at(x as int, y as int),
    {
        proof {
            lemma_pixel_in_bounds(self.width as int, self.height as int, x as int, y as int);
        }
        let total: usize = self.bytes.len();
        let row: usize = y as usize * 3 * self.width as usize;
        let pos: usize = row + x as usize * 3;
        (self.bytes[pos], self.bytes[pos + 1], self.bytes[pos + 2])
    }
}

impl ImageUtils {
    /// Makes a texture of a decoded image, given its dimensions and its
    /// pixels as three bytes each, row-major. Fails when the buffer does not
    /// hold exactly `width * height` pixels.
    pub fn decoded(path: String, width: u32, height: u32, bytes: Vec<u8>) -> (r: Result<
        Texture,
        AppError,
    >)
        ensures
            bytes@.len() == 3 * width * height ==> r is Ok && r->Ok_0.path == path && r->Ok_0.width
                == width && r->Ok_0.height == height && r->Ok_0.bytes == bytes && r->Ok_0.wf(),
            bytes@.len() != 3 * width * height ==> r is Err && r->Err_0 is ErrorLoadTexture
                && r->Err_0.message() == "image buffer does not match its dimensions"@,
    {
        assert(0 <= 3 * width * height <= 3 * 0xffff_ffff * 0xffff_ffff) by (nonlinear_arith)
            requires
                0 <= width <= 0xffff_ffff,
                0 <= height <= 0xffff_ffff,
        ;
        let expected: u128 = 3 * (width as u128) * (height as u128);
        if bytes.len() as u128 == expected {
            Ok(Texture { path, width, height, bytes })
        } else {
            Err(
                AppError::ErrorLoadTexture(
                    "image buffer does not match its dimensions".to_string(),
                ),
            )
        }
    }
}

proof fn lemma_pixel_in_bounds(width: int, height: int, x: int, y: int)
    requires
        0 <= x < width,
        0 <= y < height,
    ensures
        0 <= y * 3 <= y * 3 * width,
        0 <= pixel_offset(width, x, y),
        pixel_offset(width, x, y) + 3 <= 3 * width * height,
{
    assert(0 <= y * 3 <= y * 3 * width) by (nonlinear_arith)
        requires
            0 <= y,
            1 <= width,
    ;
    assert(y * 3 * width + x * 3 + 3 <= 3 * width * height) by (nonlinear_arith)
        requires
            0 <= x < width,
            0 <= y < height,
    ;
}

} // verus!
