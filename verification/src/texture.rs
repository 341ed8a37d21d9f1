use vstd::prelude::*;
use wgpu::{Sampler, Texture, TextureFormat, TextureView};
use crate::render::renderer::SurfaceSize;

verus! {

/// A texture on the GPU with its default view and sampler.
#[derive(Debug)]
pub struct GpuTexture {
    pub texture: Texture,
    pub view: TextureView,
    pub sampler: Sampler,
}

/// How the texels of an image texture are to be read.
#[derive(Debug, Clone, Copy, PartialEq, Eq, Structural)]
pub enum TextureType {
    Diffuse,
    Normal,
}

/// The pixel format an image texture is created with.
#[derive(Debug, Clone, Copy, PartialEq, Eq, Structural)]
pub enum ImageFormat {
    /// Four 8-bit channels, colour in the sRGB space.
    Rgba8UnormSrgb,
    /// Four 8-bit channels, read back as they are stored.
    Rgba8Unorm,
}

impl TextureType {
    /// Diffuse colours are sRGB encoded; normal maps hold plain values.
    pub fn format(self) -> (r: ImageFormat)
        ensures
            r == match self {
                TextureType::Diffuse => ImageFormat::Rgba8UnormSrgb,
                TextureType::Normal => ImageFormat::Rgba8Unorm,
            },
    {
        match self {
            TextureType::Diffuse => ImageFormat::Rgba8UnormSrgb,
            TextureType::Normal => ImageFormat::Rgba8Unorm,
        }
    }
}

/// Width, height and number of layers of a texture.
#[derive(Debug, Clone, Copy, PartialEq, Eq, Structural)]
pub struct TextureExtent {
    pub width: u32,
    pub height: u32,
    pub layers: u32,
}

/// The extent of a texture made from `dimensions`: those dimensions when
/// given, the size of the surface otherwise, with `layers` layers either way.
pub fn texture_extent(dimensions: Option<(u32, u32)>, surface: SurfaceSize, layers: u32) -> (r: TextureExtent)
    ensures
        r == (match dimensions {
            Some((width, height)) => TextureExtent { width, height, layers },
            None => TextureExtent { width: surface.width, height: surface.height, layers },
        }),
{
    match dimensions {
        Some((width, height)) => TextureExtent { width, height, layers },
        None => TextureExtent { width: surface.width, height: surface.height, layers },
    }
}

/// Bytes in one row of RGBA texels, four bytes each, when uploading image data.
pub fn rgba_bytes_per_row(width: u32) -> (r: u32)
    requires
        4 * width <= u32::MAX,
    ensures
        r == 4 * width,
{
    4 * width
}

/// The pixel format of a render target: the 32-bit floating point depth
/// format, or any other format of `wgpu`.
#[derive(Debug, Clone, Copy)]
pub enum TargetFormat {
    Depth32Float,
    Other(TextureFormat),
}

/// A texture without initial contents, used as a render target.
#[derive(Debug)]
pub struct EmptyTexture {
    pub dimensions: Option<(u32, u32)>,
    pub format: TargetFormat,
    pub filtered: bool,
}

impl EmptyTexture {
    /// A filtered depth target sized like the surface.
    pub fn new_depth() -> (r: Self)
        ensures
            r.dimensions is None,
            r.format is Depth32Float,
            r.filtered,
    {
        Self { dimensions: None, format: TargetFormat::Depth32Float, filtered: true }
    }
}

/// The six faces of a cube map, as RGBA texels one face after the other.
#[derive(Debug)]
pub struct CubeMap {
    pub format: TextureFormat,
    pub texture: Option<Vec<u8>>,
    pub dimensions: Option<(u32, u32)>,
}

} // verus!
