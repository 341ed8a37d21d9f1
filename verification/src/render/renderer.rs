use vstd::prelude::*;
use wgpu::{SurfaceTexture, TextureView};

verus! {

/// Bind groups a pipeline can use at once.
pub const MAX_BIND_GROUPS: usize = 4;

/// Color targets a render phase can write at once.
pub const MAX_COLOR_ATTACHMENTS: usize = 8;

/// The surface texture of the frame being rendered, and a view of it.
#[derive(Debug)]
pub struct CurrentFrameContext {
    pub view: TextureView,
    pub output: SurfaceTexture,
}

impl CurrentFrameContext {
    pub fn view(&self) -> (r: &TextureView)
        ensures
            *r == self.view,
    {
        &self.view
    }
}

/// Width and height of a render surface, in pixels.
#[derive(Debug, Clone, Copy, PartialEq, Eq, Structural)]
pub struct SurfaceSize {
    pub width: u32,
    pub height: u32,
}

/// The size a surface is configured with after a resize request: the
/// requested size when both its sides are positive, the current size
/// otherwise (also when no size is given, as after a lost surface).
pub fn resized_surface(current: SurfaceSize, requested: Option<SurfaceSize>) -> (r: SurfaceSize)
    ensures
        r == (match requested {
            Some(size) => if 0 < size.width && 0 < size.height {
                size
            } else {
                current
            },
            None => current,
        }),
{
    match requested {
        Some(size) => {
            if 0 < size.width && 0 < size.height {
                size
            } else {
                current
            }
        },
        None => current,
    }
}

} // verus!
