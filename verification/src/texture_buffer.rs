use vstd::prelude::*;
use wgpu::Buffer;

verus! {

/// A buffer the rendered surface is copied into, to be read back as an
/// RGBA image of `width` by `height` pixels.
#[derive(Debug)]
pub struct TextureBuffer {
    pub buffer: Buffer,
    pub width: u32,
    pub height: u32,
}

/// Bytes per RGBA pixel.
pub const PIXEL_SIZE: u32 = 4;

impl TextureBuffer {
    /// The number of bytes of a `width` by `height` RGBA image, computed in
    /// `u32` as the row size times the height.
    pub fn buffer_size(width: u32, height: u32) -> (r: u64)
        requires
            PIXEL_SIZE * width <= u32::MAX,
            PIXEL_SIZE * width * height <= u32::MAX,
        ensures
            r == PIXEL_SIZE * width * height,
    {
        let row = PIXEL_SIZE * width;
        let size = row * height;
        size as u64
    }
}

} // verus!
