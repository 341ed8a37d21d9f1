use vstd::prelude::*;
use wgpu::TextureFormat;
use crate::mesh::GpuMesh;
use crate::render::storage::{RenderStorage, ResourceId, replaced};
use crate::texture::GpuTexture;

verus! {

/// A render target of the geometry buffer, sized like the surface.
#[derive(Debug)]
pub struct GBufferTexture {
    pub format: TextureFormat,
}

impl GBufferTexture {
    pub fn new(format: TextureFormat) -> (r: Self)
        ensures
            r.format == format,
    {
        Self { format }
    }
}

/// The position, normal and albedo targets of deferred shading.
#[derive(Debug)]
pub struct GBuffer {
    pub position: GBufferTexture,
    pub normal: GBufferTexture,
    pub albedo: GBufferTexture,
}

impl GBuffer {
    /// A geometry buffer whose three targets all use `format`.
    pub fn new(format: TextureFormat) -> (r: Self)
        ensures
            r.position.format == format,
            r.normal.format == format,
            r.albedo.format == format,
    {
        Self {
            position: GBufferTexture::new(format),
            normal: GBufferTexture::new(format),
            albedo: GBufferTexture::new(format),
        }
    }
}

/// The GPU resources of a [`GBuffer`]: its three targets and the full-screen
/// quad they are sampled on.
#[derive(Debug)]
pub struct GBufferResource {
    pub position_texture: GpuTexture,
    pub normal_texture: GpuTexture,
    pub albedo_texture: GpuTexture,
    pub mesh: GpuMesh,
}

/// Where the resources of a [`GBuffer`] are kept in a [`RenderStorage`].
#[derive(Debug)]
pub struct GBufferHandle {
    pub position_texture_id: ResourceId,
    pub normal_texture_id: ResourceId,
    pub albedo_texture_id: ResourceId,
    pub mesh_id: ResourceId,
}

impl GBufferHandle {
    /// Stores the resources in fresh slots, textures in the order position,
    /// normal, albedo.
    pub fn new(storage: &mut RenderStorage, resource: GBufferResource) -> (r: Self)
        requires
            old(storage).wf(),
            old(storage).texture_count() + 3 <= usize::MAX,
            old(storage).mesh_count() < usize::MAX,
        ensures
            final(storage).wf(),
            r.position_texture_id == ResourceId::Slot(old(storage).texture_count() as usize),
            r.normal_texture_id == ResourceId::Slot((old(storage).texture_count() + 1) as usize),
            r.albedo_texture_id == ResourceId::Slot((old(storage).texture_count() + 2) as usize),
            r.mesh_id == ResourceId::Slot(old(storage).mesh_count() as usize),
            final(storage).textures() == old(storage).textures().insert(
                old(storage).texture_count() as usize,
                resource.position_texture,
            ).insert((old(storage).texture_count() + 1) as usize, resource.normal_texture).insert(
                (old(storage).texture_count() + 2) as usize,
                resource.albedo_texture,
            ),
            final(storage).texture_count() == old(storage).texture_count() + 3,
            final(storage).meshes() == old(storage).meshes().insert(
                old(storage).mesh_count() as usize,
                resource.mesh,
            ),
            final(storage).mesh_count() == old(storage).mesh_count() + 1,
            final(storage).same_buffers(*old(storage)),
            final(storage).same_bind_groups(*old(storage)),
            final(storage).same_pipelines_and_layouts(*old(storage)),
    {
        Self {
            position_texture_id: storage.insert_texture(resource.position_texture),
            normal_texture_id: storage.insert_texture(resource.normal_texture),
            albedo_texture_id: storage.insert_texture(resource.albedo_texture),
            mesh_id: storage.insert_mesh(resource.mesh),
        }
    }

    /// Puts the resources in place of the ones this handle names.
    pub fn replace(&self, storage: &mut RenderStorage, resource: GBufferResource)
        requires
            old(storage).wf(),
        ensures
            final(storage).wf(),
            final(storage).textures() == replaced(
                replaced(
                    replaced(old(storage).textures(), self.position_texture_id, resource.position_texture),
                    self.normal_texture_id,
                    resource.normal_texture,
                ),
                self.albedo_texture_id,
                resource.albedo_texture,
            ),
            final(storage).meshes() == replaced(old(storage).meshes(), self.mesh_id, resource.mesh),
            final(storage).texture_count() == old(storage).texture_count(),
            final(storage).mesh_count() == old(storage).mesh_count(),
            final(storage).same_buffers(*old(storage)),
            final(storage).same_bind_groups(*old(storage)),
            final(storage).same_pipelines_and_layouts(*old(storage)),
    {
        storage.replace_texture(self.position_texture_id, resource.position_texture);
        storage.replace_texture(self.normal_texture_id, resource.normal_texture);
        storage.replace_texture(self.albedo_texture_id, resource.albedo_texture);
        storage.replace_mesh(self.mesh_id, resource.mesh);
    }
}

/// The bind group through which shaders read a [`GBuffer`].
#[derive(Debug)]
pub struct GBufferBindGroup(pub ResourceId);

} // verus!
