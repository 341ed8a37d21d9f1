use vstd::prelude::*;
use wgpu::Buffer;
use crate::render::storage::{RenderStorage, ResourceId, replaced};
use crate::texture::GpuTexture;

verus! {

/// The GPU resources of a material: its property buffer and its diffuse and
/// normal textures.
#[derive(Debug)]
pub struct MaterialResource {
    pub buffer: Buffer,
    pub diffuse_texture: GpuTexture,
    pub normal_texture: GpuTexture,
}

/// Where the resources of a material are kept in a [`RenderStorage`].
#[derive(Debug, Clone, Copy)]
pub struct MaterialHandle {
    pub buffer_id: ResourceId,
    pub diffuse_texture_id: ResourceId,
    pub normal_texture_id: ResourceId,
}

impl MaterialHandle {
    /// Stores the resources in fresh slots, the diffuse texture before the
    /// normal texture.
    pub fn new(storage: &mut RenderStorage, resource: MaterialResource) -> (r: Self)
        requires
            old(storage).wf(),
            old(storage).buffer_count() < usize::MAX,
            old(storage).texture_count() + 2 <= usize::MAX,
        ensures
            final(storage).wf(),
            r.buffer_id == ResourceId::Slot(old(storage).buffer_count() as usize),
            r.diffuse_texture_id == ResourceId::Slot(old(storage).texture_count() as usize),
            r.normal_texture_id == ResourceId::Slot((old(storage).texture_count() + 1) as usize),
            final(storage).buffers() == old(storage).buffers().insert(
                old(storage).buffer_count() as usize,
                resource.buffer,
            ),
            final(storage).buffer_count() == old(storage).buffer_count() + 1,
            final(storage).textures() == old(storage).textures().insert(
                old(storage).texture_count() as usize,
                resource.diffuse_texture,
            ).insert((old(storage).texture_count() + 1) as usize, resource.normal_texture),
            final(storage).texture_count() == old(storage).texture_count() + 2,
            final(storage).same_meshes(*old(storage)),
            final(storage).same_bind_groups(*old(storage)),
            final(storage).same_pipelines_and_layouts(*old(storage)),
    {
        Self {
            buffer_id: storage.insert_buffer(resource.buffer),
            diffuse_texture_id: storage.insert_texture(resource.diffuse_texture),
            normal_texture_id: storage.insert_texture(resource.normal_texture),
        }
    }

    /// Puts the resources in place of the ones this handle names.
    pub fn replace(&self, storage: &mut RenderStorage, resource: MaterialResource)
        requires
            old(storage).wf(),
        ensures
            final(storage).wf(),
            final(storage).buffers() == replaced(old(storage).buffers(), self.buffer_id, resource.buffer),
            final(storage).textures() == replaced(
                replaced(old(storage).textures(), self.diffuse_texture_id, resource.diffuse_texture),
                self.normal_texture_id,
                resource.normal_texture,
            ),
            final(storage).buffer_count() == old(storage).buffer_count(),
            final(storage).texture_count() == old(storage).texture_count(),
            final(storage).same_meshes(*old(storage)),
            final(storage).same_bind_groups(*old(storage)),
            final(storage).same_pipelines_and_layouts(*old(storage)),
    {
        storage.replace_buffer(self.buffer_id, resource.buffer);
        storage.replace_texture(self.diffuse_texture_id, resource.diffuse_texture);
        storage.replace_texture(self.normal_texture_id, resource.normal_texture);
    }
}

/// The bind group through which shaders read a material.
#[derive(Debug, Clone, Copy, Hash)]
pub struct MaterialBindGroup(pub ResourceId);

} // verus!
