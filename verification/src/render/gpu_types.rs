use vstd::prelude::*;

verus! {

/// GPU objects owned by `wgpu`; the library only stores and hands them back.
#[verifier::external_type_specification]
#[verifier::external_body]
pub struct ExBuffer(wgpu::Buffer);

#[verifier::external_type_specification]
#[verifier::external_body]
pub struct ExTexture(wgpu::Texture);

#[verifier::external_type_specification]
#[verifier::external_body]
pub struct ExTextureView(wgpu::TextureView);

#[verifier::external_type_specification]
#[verifier::external_body]
pub struct ExSampler(wgpu::Sampler);

#[verifier::external_type_specification]
#[verifier::external_body]
pub struct ExBindGroup(wgpu::BindGroup);

#[verifier::external_type_specification]
#[verifier::external_body]
pub struct ExBindGroupLayout(wgpu::BindGroupLayout);

#[verifier::external_type_specification]
#[verifier::external_body]
pub struct ExRenderPipeline(wgpu::RenderPipeline);

#[verifier::external_type_specification]
#[verifier::external_body]
pub struct ExSurfaceTexture(wgpu::SurfaceTexture);

#[verifier::external_type_specification]
#[verifier::external_body]
pub struct ExTextureFormat(wgpu::TextureFormat);

#[verifier::external_type_specification]
#[verifier::external_body]
pub struct ExExtent3d(wgpu::Extent3d);

#[verifier::external_type_specification]
#[verifier::external_body]
pub struct ExOrigin3d(wgpu::Origin3d);

} // verus!
